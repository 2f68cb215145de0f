//! Assets, and when two of them are the same asset.

use vstd::prelude::*;

use crate::address::Address;
use crate::table::{Key, Stored};

verus! {

/// Longest asset code, in bytes, that can be registered.
pub const MAX_CODE_LEN: u32 = 12;

/// An asset: its code, such as `XLM` or `USDC`, and its issuer.
///
/// The code keeps the casing that its owner wrote. The issuer is `None` for
/// the native asset. `Code` is `Vec<u8>` in programs and `Seq<u8>` in contracts.
#[derive(Clone, Debug, PartialEq, Eq)]
pub struct AssetInfo<Code = Vec<u8>> {
    pub code: Code,
    pub issuer: Option<Address>,
}

impl View for AssetInfo {
    type V = AssetInfo<Seq<u8>>;

    open spec fn view(&self) -> AssetInfo<Seq<u8>> {
        AssetInfo { code: self.code@, issuer: self.issuer }
    }
}

impl Stored for AssetInfo {
    fn duplicate(&self) -> (r: Self) {
        AssetInfo { code: self.code.duplicate(), issuer: self.issuer }
    }
}

/// Whether two issuers are the same, the absent issuer of the native asset
/// among them.
fn same_issuer(a: &Option<Address>, b: &Option<Address>) -> (r: bool)
    ensures
        r == (*a == *b),
{
    match (a, b) {
        (Some(x), Some(y)) => *x == *y,
        (None, None) => true,
        _ => false,
    }
}

impl Key for AssetInfo {
    fn same(&self, other: &Self) -> (r: bool) {
        self.code.same(&other.code) && same_issuer(&self.issuer, &other.issuer)
    }
}

/// ASCII upper case of a byte; any other byte stays.
pub open spec fn upper(b: u8) -> u8 {
    if 97 <= b <= 122 {
        (b - 32) as u8
    } else {
        b
    }
}

/// The form in which codes are compared: upper case, except that a code too
/// long to be registered stands for itself alone.
pub open spec fn folded(code: Seq<u8>) -> Seq<u8> {
    if code.len() <= MAX_CODE_LEN {
        code.map_values(|b: u8| upper(b))
    } else {
        code
    }
}

/// Two codes name the same asset code, whatever their casing.
pub open spec fn codes_match(a: Seq<u8>, b: Seq<u8>) -> bool {
    folded(a) == folded(b)
}

impl AssetInfo<Seq<u8>> {
    /// The same asset: codes that match and the same issuer.
    pub open spec fn matches(self, other: Self) -> bool {
        codes_match(self.code, other.code) && self.issuer == other.issuer
    }

    /// The code of the native asset, `XLM`.
    pub open spec fn is_native(self) -> bool {
        self.code == seq![88u8, 76u8, 77u8]
    }
}

/// The entry of a list that an asset refers to: the first that matches it.
pub open spec fn find_asset(
    list: Seq<AssetInfo<Seq<u8>>>,
    asset: AssetInfo<Seq<u8>>,
) -> Option<AssetInfo<Seq<u8>>>
    decreases list.len(),
{
    if list.len() == 0 {
        None
    } else {
        match find_asset(list.drop_last(), asset) {
            Some(a) => Some(a),
            None => if list.last().matches(asset) {
                Some(list.last())
            } else {
                None
            },
        }
    }
}

/// The assets of a list, as contracts speak of them.
pub open spec fn asset_views(list: Seq<AssetInfo>) -> Seq<AssetInfo<Seq<u8>>> {
    list.map_values(|a: AssetInfo| a@)
}

/// ASCII upper case of a byte; any other byte stays.
fn to_upper(b: u8) -> (r: u8)
    ensures
        r == upper(b),
{
    if 97 <= b && b <= 122 {
        b - 32
    } else {
        b
    }
}

/// Whether two codes are equal without regard to ASCII casing. Codes longer
/// than [`MAX_CODE_LEN`] are compared as they stand.
pub fn codes_match_case_insensitive(a: &Vec<u8>, b: &Vec<u8>) -> (r: bool)
    ensures
        r == codes_match(a@, b@),
{
    if a.len() != b.len() {
        assert(folded(a@).len() == a@.len() && folded(b@).len() == b@.len());
        return false;
    }
    if a.len() > MAX_CODE_LEN as usize {
        return a.same(b);
    }
    let mut i: usize = 0;
    while i < a.len()
        invariant
            a.len() == b.len(),
            a.len() <= MAX_CODE_LEN,
            i <= a.len(),
            forall|j: int| 0 <= j < i ==> upper(a@[j]) == upper(b@[j]),
        decreases a.len() - i,
    {
        if to_upper(a[i]) != to_upper(b[i]) {
            proof {
                assert(folded(a@)[i as int] == upper(a@[i as int]));
                assert(folded(b@)[i as int] == upper(b@[i as int]));
            }
            return false;
        }
        i += 1;
    }
    assert(folded(a@) =~= folded(b@));
    true
}

/// Whether two assets are the same asset: codes equal without regard to
/// casing, issuers identical.
pub fn assets_match(a: &AssetInfo, b: &AssetInfo) -> (r: bool)
    ensures
        r == a@.matches(b@),
{
    codes_match_case_insensitive(&a.code, &b.code) && same_issuer(&a.issuer, &b.issuer)
}

/// A copy of a list of assets.
pub fn copy_assets(list: &Vec<AssetInfo>) -> (r: Vec<AssetInfo>)
    ensures
        asset_views(r@) == asset_views(list@),
{
    copy_first_assets(list, list.len())
}

/// A copy of the first assets of a list.
pub fn copy_first_assets(list: &Vec<AssetInfo>, count: usize) -> (r: Vec<AssetInfo>)
    requires
        count <= list.len(),
    ensures
        asset_views(r@) == asset_views(list@).take(count as int),
{
    let mut r: Vec<AssetInfo> = Vec::new();
    let mut i: usize = 0;
    while i < count
        invariant
            i <= count <= list.len(),
            asset_views(r@) =~= asset_views(list@).take(i as int),
        decreases count - i,
    {
        let copy = list[i].duplicate();
        let ghost before = r@;
        r.push(copy);
        proof {
            assert(asset_views(r@) =~= asset_views(before).push(copy@));
        }
        i += 1;
    }
    r
}

/// A user's registered assets, in the order in which they were added.
#[derive(Debug)]
pub struct AssetList {
    pub items: Vec<AssetInfo>,
}

impl View for AssetList {
    type V = Seq<AssetInfo<Seq<u8>>>;

    open spec fn view(&self) -> Seq<AssetInfo<Seq<u8>>> {
        asset_views(self.items@)
    }
}

impl Stored for AssetList {
    fn duplicate(&self) -> (r: Self) {
        AssetList { items: copy_assets(&self.items) }
    }
}

impl AssetList {
    /// The entry that an asset refers to, if one matches it.
    pub fn find(&self, asset: &AssetInfo) -> (r: Option<AssetInfo>)
        ensures
            match r {
                Some(a) => find_asset(self@, asset@) == Some(a@),
                None => find_asset(self@, asset@) is None,
            },
    {
        let mut i: usize = 0;
        while i < self.items.len()
            invariant
                i <= self.items.len(),
                find_asset(self@.take(i as int), asset@) is None,
            decreases self.items.len() - i,
        {
            proof {
                assert(self@.take(i + 1).drop_last() =~= self@.take(i as int));
                assert(self@.take(i + 1).last() == self.items@[i as int]@);
            }
            if assets_match(&self.items[i], asset) {
                proof {
                    lemma_find_in_prefix(self@, i + 1, asset@);
                }
                return Some(self.items[i].duplicate());
            }
            i += 1;
        }
        assert(self@.take(i as int) =~= self@);
        None
    }
}

/// What is found in a prefix of a list is found in the list.
proof fn lemma_find_in_prefix(
    list: Seq<AssetInfo<Seq<u8>>>,
    n: int,
    asset: AssetInfo<Seq<u8>>,
)
    requires
        0 <= n <= list.len(),
        find_asset(list.take(n), asset) is Some,
    ensures
        find_asset(list, asset) == find_asset(list.take(n), asset),
    decreases list.len(),
{
    if n == list.len() {
        assert(list.take(n) =~= list);
    } else {
        assert(list.drop_last().take(n) =~= list.take(n));
        lemma_find_in_prefix(list.drop_last(), n, asset);
    }
}

/// An asset is found exactly where some entry matches it, and the entry found
/// is one of those.
pub proof fn lemma_found(list: Seq<AssetInfo<Seq<u8>>>, asset: AssetInfo<Seq<u8>>)
    ensures
        find_asset(list, asset) is Some <==> exists|i: int|
            0 <= i < list.len() && (#[trigger] list[i]).matches(asset),
        find_asset(list, asset) matches Some(a) ==> list.contains(a) && a.matches(asset),
    decreases list.len(),
{
    if list.len() > 0 {
        let front = list.drop_last();
        lemma_found(front, asset);
        if find_asset(front, asset) is Some {
            let i = choose|i: int| 0 <= i < front.len() && (#[trigger] front[i]).matches(asset);
            assert(list[i] == front[i]);
            let a = find_asset(front, asset).unwrap();
            let k = choose|k: int| 0 <= k < front.len() && front[k] == a;
            assert(list[k] == a);
        } else {
            assert forall|i: int| 0 <= i < list.len() && (#[trigger] list[i]).matches(
                asset,
            ) implies i == list.len() - 1 by {
                if i < list.len() - 1 {
                    assert(front[i] == list[i]);
                }
            }
            if list.last().matches(asset) {
                assert(list[list.len() - 1].matches(asset));
            }
        }
    }
}

} // verus!

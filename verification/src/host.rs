//! Lists and indexes of addresses, held in the collections of the ledger's host.
//!
//! A host collection holds an address as a triple: whether it names a contract,
//! and the two halves of its identifier. The collections of this module are
//! filled by its own functions alone, so they hold nothing but such triples.
//!
//! The host meters what is done with its collections, and aborts a call that
//! goes beyond the ledger's budget. That is the end of the whole call, so
//! nothing here speaks of it.

use vstd::prelude::*;

use crate::address::{Address, AddressKind};
use crate::lists::lemma_pushed;

verus! {

/// A handle on the ledger's host.
#[verifier::external_type_specification]
#[verifier::external_body]
pub struct ExHostEnv(soroban_sdk::Env);

/// A vector of the host. What it holds is named by [`vec_items`].
#[verifier::external_type_specification]
#[verifier::external_body]
#[verifier::reject_recursive_types(T)]
pub struct ExHostVec<T>(soroban_sdk::Vec<T>);

/// A map of the host. What it holds is named by [`map_entries`].
#[verifier::external_type_specification]
#[verifier::external_body]
#[verifier::reject_recursive_types(K)]
#[verifier::reject_recursive_types(V)]
pub struct ExHostMap<K, V>(soroban_sdk::Map<K, V>);

/// The items of a host vector, from the first to the last.
pub uninterp spec fn vec_items(v: soroban_sdk::Vec<(bool, u128, u128)>) -> Seq<
    (bool, u128, u128),
>;

/// The entries of a host map.
pub uninterp spec fn map_entries(m: soroban_sdk::Map<(bool, u128, u128), bool>) -> Map<
    (bool, u128, u128),
    bool,
>;

/// `soroban_sdk::Vec::new`, which makes a vector without items.
#[verifier::external_body]
fn vec_new(env: &soroban_sdk::Env) -> (r: soroban_sdk::Vec<(bool, u128, u128)>)
    ensures
        vec_items(r).len() == 0,
{
    soroban_sdk::Vec::new(env)
}

/// `soroban_sdk::Vec::len`, which counts the items.
#[verifier::external_body]
fn vec_len(v: &soroban_sdk::Vec<(bool, u128, u128)>) -> (r: u32)
    ensures
        r == vec_items(*v).len(),
{
    v.len()
}

/// `soroban_sdk::Vec::get`, which returns the item at a position, and `None` past
/// the end.
#[verifier::external_body]
fn vec_get(v: &soroban_sdk::Vec<(bool, u128, u128)>, i: u32) -> (r: Option<(bool, u128, u128)>)
    ensures
        r == (if i < vec_items(*v).len() {
            Some(vec_items(*v)[i as int])
        } else {
            None
        }),
{
    v.get(i)
}

/// `soroban_sdk::Vec::push_back`, which adds an item in the last position. The
/// length of a vector is a `u32`, so one that is full cannot take another.
#[verifier::external_body]
fn vec_push_back(v: &mut soroban_sdk::Vec<(bool, u128, u128)>, item: (bool, u128, u128))
    requires
        vec_items(*old(v)).len() < u32::MAX,
    ensures
        vec_items(*final(v)) == vec_items(*old(v)).push(item),
{
    v.push_back(item);
}

/// `clone` of `soroban_sdk::Vec`, which makes a vector with the same items.
#[verifier::external_body]
fn vec_clone(v: &soroban_sdk::Vec<(bool, u128, u128)>) -> (r: soroban_sdk::Vec<(bool, u128, u128)>)
    ensures
        vec_items(r) == vec_items(*v),
{
    v.clone()
}

/// `soroban_sdk::Map::new`, which makes a map without entries.
#[verifier::external_body]
fn map_new(env: &soroban_sdk::Env) -> (r: soroban_sdk::Map<(bool, u128, u128), bool>)
    ensures
        map_entries(r).dom().is_empty(),
{
    soroban_sdk::Map::new(env)
}

/// `soroban_sdk::Map::get`, which returns the value of a key, and `None` where the
/// map has none.
#[verifier::external_body]
fn map_get(m: &soroban_sdk::Map<(bool, u128, u128), bool>, key: (bool, u128, u128)) -> (r: Option<
    bool,
>)
    ensures
        r == (if map_entries(*m).contains_key(key) {
            Some(map_entries(*m)[key])
        } else {
            None
        }),
{
    m.get(key)
}

/// `soroban_sdk::Map::set`, which sets the value of a key in place of any earlier
/// one.
#[verifier::external_body]
fn map_set(m: &mut soroban_sdk::Map<(bool, u128, u128), bool>, key: (bool, u128, u128), value: bool)
    ensures
        map_entries(*final(m)) == map_entries(*old(m)).insert(key, value),
{
    m.set(key, value);
}

/// `soroban_sdk::Map::remove`, which unsets a key and says whether it was set.
#[verifier::external_body]
fn map_remove(m: &mut soroban_sdk::Map<(bool, u128, u128), bool>, key: (bool, u128, u128)) -> (r:
    Option<()>)
    ensures
        map_entries(*final(m)) == map_entries(*old(m)).remove(key),
        r is Some == map_entries(*old(m)).contains_key(key),
{
    m.remove(key)
}

/// The triple by which a host collection holds an address.
pub open spec fn slot_of(a: Address) -> (bool, u128, u128) {
    (a.kind is Contract, a.hi, a.lo)
}

/// The address that a triple stands for.
pub open spec fn address_of(slot: (bool, u128, u128)) -> Address {
    Address {
        kind: if slot.0 {
            AddressKind::Contract
        } else {
            AddressKind::Account
        },
        hi: slot.1,
        lo: slot.2,
    }
}

/// The triple by which a host collection holds an address.
fn to_slot(a: Address) -> (r: (bool, u128, u128))
    ensures
        r == slot_of(a),
        address_of(r) == a,
{
    match a.kind {
        AddressKind::Contract => (true, a.hi, a.lo),
        AddressKind::Account => (false, a.hi, a.lo),
    }
}

/// The address that a triple stands for.
fn from_slot(slot: (bool, u128, u128)) -> (r: Address)
    ensures
        r == address_of(slot),
        slot_of(r) == slot,
{
    let kind = if slot.0 {
        AddressKind::Contract
    } else {
        AddressKind::Account
    };
    Address { kind, hi: slot.1, lo: slot.2 }
}

/// A list without an address.
pub open spec fn without(list: Seq<Address>, who: Address) -> Seq<Address> {
    list.filter(|a: Address| a != who)
}

/// The index of a list of addresses: each of them, as a member.
pub open spec fn index_of(list: Seq<Address>) -> Map<Address, bool> {
    Map::new(|a: Address| list.contains(a), |a: Address| true)
}

/// A list of addresses, in a host vector.
#[derive(Debug, PartialEq, Eq)]
pub struct AddressList {
    items: soroban_sdk::Vec<(bool, u128, u128)>,
}

impl View for AddressList {
    type V = Seq<Address>;

    closed spec fn view(&self) -> Seq<Address> {
        vec_items(self.items).map_values(|slot: (bool, u128, u128)| address_of(slot))
    }
}

impl Clone for AddressList {
    fn clone(&self) -> (r: Self)
        ensures
            r@ == self@,
    {
        AddressList { items: vec_clone(&self.items) }
    }
}

impl AddressList {
    /// A list without addresses.
    pub fn new(host: &soroban_sdk::Env) -> (r: Self)
        ensures
            r@ == Seq::<Address>::empty(),
    {
        let r = AddressList { items: vec_new(host) };
        assert(r@ =~= Seq::<Address>::empty());
        r
    }

    /// The number of addresses.
    pub fn len(&self) -> (r: u32)
        ensures
            r == self@.len(),
    {
        vec_len(&self.items)
    }

    /// The address at a position, `None` past the end.
    pub fn get(&self, i: u32) -> (r: Option<Address>)
        ensures
            r == (if i < self@.len() {
                Some(self@[i as int])
            } else {
                None
            }),
    {
        match vec_get(&self.items, i) {
            Some(slot) => Some(from_slot(slot)),
            None => None,
        }
    }

    /// Adds an address at the end.
    pub fn push_back(&mut self, who: Address)
        requires
            old(self)@.len() < u32::MAX,
        ensures
            final(self)@ == old(self)@.push(who),
    {
        vec_push_back(&mut self.items, to_slot(who));
        assert(self@ =~= old(self)@.push(who));
    }

    /// Whether the list holds an address.
    pub fn contains(&self, who: Address) -> (r: bool)
        ensures
            r == self@.contains(who),
    {
        let count: u32 = self.len();
        let mut i: u32 = 0;
        while i < count
            invariant
                i <= count == self@.len(),
                forall|j: int| 0 <= j < i ==> self@[j] != who,
            decreases count - i,
        {
            if self.get(i) == Some(who) {
                assert(self@[i as int] == who);
                return true;
            }
            i += 1;
        }
        false
    }

    /// The list without an address.
    pub fn without(&self, host: &soroban_sdk::Env, who: Address) -> (r: Self)
        ensures
            r@ == without(self@, who),
    {
        let mut r = AddressList::new(host);
        let count: u32 = self.len();
        let mut i: u32 = 0;
        proof {
            assert(self@.take(0) =~= Seq::<Address>::empty());
            reveal(Seq::filter);
        }
        while i < count
            invariant
                i <= count == self@.len(),
                r@.len() <= i,
                r@ == without(self@.take(i as int), who),
            decreases count - i,
        {
            proof {
                reveal(Seq::filter);
                assert(self@.take(i + 1).drop_last() =~= self@.take(i as int));
                assert(self@.take(i + 1).last() == self@[i as int]);
            }
            if let Some(other) = self.get(i) {
                if other != who {
                    r.push_back(other);
                }
            }
            i += 1;
        }
        assert(self@.take(i as int) =~= self@);
        r
    }
}

/// Addresses that are marked as members, in a host map.
#[derive(Debug, PartialEq, Eq)]
pub struct AddressIndex {
    entries: soroban_sdk::Map<(bool, u128, u128), bool>,
}

impl View for AddressIndex {
    type V = Map<Address, bool>;

    closed spec fn view(&self) -> Map<Address, bool> {
        Map::new(
            |a: Address| map_entries(self.entries).contains_key(slot_of(a)),
            |a: Address| map_entries(self.entries)[slot_of(a)],
        )
    }
}

impl AddressIndex {
    /// An index without entries.
    pub fn new(host: &soroban_sdk::Env) -> (r: Self)
        ensures
            r@ == Map::<Address, bool>::empty(),
    {
        let r = AddressIndex { entries: map_new(host) };
        assert(r@ =~= Map::<Address, bool>::empty());
        r
    }

    /// The index of a list of addresses.
    pub fn build(host: &soroban_sdk::Env, list: &AddressList) -> (r: Self)
        ensures
            r@ == index_of(list@),
    {
        let mut r = AddressIndex::new(host);
        let count: u32 = list.len();
        let mut i: u32 = 0;
        proof {
            assert(r@ =~= index_of(list@.take(0)));
        }
        while i < count
            invariant
                i <= count == list@.len(),
                r@ == index_of(list@.take(i as int)),
            decreases count - i,
        {
            let ghost before = list@.take(i as int);
            if let Some(who) = list.get(i) {
                r.set(who, true);
            }
            proof {
                assert(list@.take(i + 1) =~= before.push(list@[i as int]));
                lemma_pushed(before, list@[i as int]);
                assert(r@ =~= index_of(list@.take(i + 1)));
            }
            i += 1;
        }
        assert(list@.take(i as int) =~= list@);
        r
    }

    /// The mark of an address, if it has one.
    pub fn get(&self, who: Address) -> (r: Option<bool>)
        ensures
            r == (if self@.contains_key(who) {
                Some(self@[who])
            } else {
                None
            }),
    {
        map_get(&self.entries, to_slot(who))
    }

    /// Marks an address, in place of any earlier mark.
    pub fn set(&mut self, who: Address, member: bool)
        ensures
            final(self)@ == old(self)@.insert(who, member),
    {
        map_set(&mut self.entries, to_slot(who), member);
        proof {
            lemma_slots_differ(who);
            assert(self@ =~= old(self)@.insert(who, member));
        }
    }

    /// Takes the mark of an address away.
    pub fn remove(&mut self, who: Address)
        ensures
            final(self)@ == old(self)@.remove(who),
    {
        map_remove(&mut self.entries, to_slot(who));
        proof {
            lemma_slots_differ(who);
            assert(self@ =~= old(self)@.remove(who));
        }
    }
}

/// Different addresses are held as different triples.
proof fn lemma_slots_differ(who: Address)
    ensures
        forall|a: Address| #[trigger] slot_of(a) == slot_of(who) ==> a == who,
{
    assert forall|a: Address| #[trigger] slot_of(a) == slot_of(who) implies a == who by {
        assert(address_of(slot_of(a)) == a);
        assert(address_of(slot_of(who)) == who);
    }
}

} // verus!

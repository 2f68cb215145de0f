//! What a list holds once an item has been added to it.

use vstd::prelude::*;

verus! {

/// A list with one more item holds that item and what it held before, and has
/// no duplicates where it had none and the item is new.
pub proof fn lemma_pushed<A>(list: Seq<A>, item: A)
    ensures
        forall|a: A| #[trigger] list.push(item).contains(a) == (list.contains(a) || a == item),
        list.no_duplicates() && !list.contains(item) ==> list.push(item).no_duplicates(),
{
    let longer = list.push(item);
    assert forall|a: A| #[trigger] longer.contains(a) == (list.contains(a) || a == item) by {
        assert(longer[list.len() as int] == item);
        if list.contains(a) {
            let i = choose|i: int| 0 <= i < list.len() && list[i] == a;
            assert(longer[i] == a);
        }
        if longer.contains(a) && a != item {
            let i = choose|i: int| 0 <= i < longer.len() && longer[i] == a;
            assert(list[i] == a);
        }
    }
    if list.no_duplicates() && !list.contains(item) {
        assert forall|i: int, j: int|
            0 <= i < longer.len() && 0 <= j < longer.len() && i != j implies longer[i]
            != longer[j] by {
            if i < list.len() && j < list.len() {
                assert(list[i] != list[j]);
            } else if i < list.len() {
                assert(list.contains(list[i]));
            } else {
                assert(list.contains(list[j]));
            }
        }
    }
}

} // verus!

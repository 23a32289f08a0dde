//! Data-parallel searches and sorts, run on rayon's thread pool.
//!
//! The functions here hand the work to rayon and are believed, not proved, to
//! return what rayon documents. What the predicates compute is verified where
//! they are written.

use rayon::iter::{
    IndexedParallelIterator, IntoParallelIterator, IntoParallelRefIterator, ParallelIterator,
};
use rayon::slice::ParallelSliceMut;
use vstd::prelude::*;

verus! {

/// Whether `a` comes before `b`, or equals it, in the order of strings:
/// character by character, by code point, a prefix before its extensions.
pub open spec fn precedes(a: Seq<char>, b: Seq<char>) -> bool
    decreases a.len(),
{
    if a.len() == 0 {
        true
    } else if b.len() == 0 {
        false
    } else if a[0] != b[0] {
        (a[0] as u32) < (b[0] as u32)
    } else {
        precedes(a.skip(1), b.skip(1))
    }
}

/// Calls rayon's `IndexedParallelIterator::position_first` on the items of a
/// vector. It returns the position of the first item, in the order of the
/// vector, for which the predicate returned `true`, having returned `false` for
/// every item before it; and `None` when it returned `false` for every item.
#[verifier::external_body]
pub(crate) fn position_first<T: Sync, F: Fn(&T) -> bool + Sync + Send>(
    items: &Vec<T>,
    pred: F,
) -> (position: Option<usize>)
    requires
        forall|i: int| 0 <= i < items.len() ==> call_requires(pred, (&#[trigger] items@[i],)),
    ensures
        match position {
            Some(i) => {
                &&& i < items.len()
                &&& call_ensures(pred, (&items@[i as int],), true)
                &&& forall|j: int|
                    0 <= j < i ==> call_ensures(pred, (&#[trigger] items@[j],), false)
            },
            None => forall|j: int|
                0 <= j < items.len() ==> call_ensures(pred, (&#[trigger] items@[j],), false),
        },
{
    items.par_iter().position_first(|item| pred(item))
}

/// Calls rayon's `ParallelIterator::all` on the range `0..count`. It returns
/// `true` when the predicate returned `true` for every number of the range,
/// and `false` when it returned `false` for one of them.
#[verifier::external_body]
pub(crate) fn all_in_range<F: Fn(u32) -> bool + Sync + Send>(count: u32, pred: F) -> (all: bool)
    requires
        forall|i: u32| i < count ==> call_requires(pred, (i,)),
    ensures
        all ==> forall|i: u32| i < count ==> call_ensures(pred, (i,), true),
        !all ==> exists|i: u32| i < count && call_ensures(pred, (i,), false),
{
    (0..count).into_par_iter().all(|i| pred(i))
}

/// Whether `name_of` gave `first` a name that comes before the name it gave
/// `second`, or the same name.
pub open spec fn names_in_order<T, F: Fn(&T) -> String>(name_of: F, first: T, second: T) -> bool {
    exists|a: String, b: String|
        #[trigger] call_ensures(name_of, (&first,), a) && #[trigger] call_ensures(
            name_of,
            (&second,),
            b,
        ) && precedes(a@, b@)
}

/// Calls rayon's `ParallelSliceMut::par_sort_by_key` with the name of each
/// item as its key; `name_of` must give one item one name. The items are
/// rearranged, none added or lost, so that the names that `name_of` gave for
/// them stand in the order of strings.
#[verifier::external_body]
pub(crate) fn sort_by_name<T: Send, F: Fn(&T) -> String + Sync>(items: &mut Vec<T>, name_of: F)
    requires
        forall|item: T| call_requires(name_of, (&item,)),
        forall|item: T, a: String, b: String|
            #[trigger] call_ensures(name_of, (&item,), a) && #[trigger] call_ensures(
                name_of,
                (&item,),
                b,
            ) ==> a@ == b@,
    ensures
        final(items)@.to_multiset() == old(items)@.to_multiset(),
        forall|i: int, j: int|
            0 <= i < j < final(items).len() ==> #[trigger] names_in_order(
                name_of,
                final(items)@[i],
                final(items)@[j],
            ),
{
    items.par_sort_by_key(|item| name_of(item));
}

} // verus!

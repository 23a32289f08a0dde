//! The order of names: the order that strings have in Rust.

use crate::parallel::precedes;
use std::cmp::Ordering;
use vstd::prelude::*;

verus! {

/// How the name `a` stands to the name `b` in the order of strings.
pub open spec fn name_order(a: Seq<char>, b: Seq<char>) -> Ordering {
    if a == b {
        Ordering::Equal
    } else if precedes(a, b) {
        Ordering::Less
    } else {
        Ordering::Greater
    }
}

/// Compares two strings with `Ord::cmp` of `str`, which orders strings
/// character by character, by code point, a prefix before its extensions.
#[verifier::external_body]
pub(crate) fn compare_names(a: &String, b: &String) -> (order: Ordering)
    ensures
        order == name_order(a@, b@),
{
    a.cmp(b)
}

} // verus!

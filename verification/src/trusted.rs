//! What this library takes on trust: the contracts of functions that Verus
//! could not read. Each one says what it claims, and of which function.

use vstd::prelude::*;
use rand::seq::SliceRandom;
use rand::Rng;

verus! {

/// `str`'s `==`: two strings are equal exactly when they hold the same
/// characters in the same order.
pub assume_specification[ <str as PartialEq>::eq ](a: &str, b: &str) -> (r: bool)
    ensures
        r == (a@ == b@),
;

/// `rand::Rng::gen_range` on the range `low..high`, with the generator that
/// `rand::thread_rng` hands out: the number drawn is at least `low` and less
/// than `high`. The call panics on an empty range, which `requires` leaves out.
#[verifier::external_body]
pub(crate) fn draw(low: i32, high: i32) -> (x: i32)
    requires
        low < high,
    ensures
        low <= x < high,
{
    rand::thread_rng().gen_range(low..high)
}

/// `rand::seq::SliceRandom::shuffle`, with the generator that
/// `rand::thread_rng` hands out: it only swaps items, so the items afterwards
/// are the items before, each as often as before, in some order.
#[verifier::external_body]
pub(crate) fn shuffle<T: DeepView>(items: &mut Vec<T>)
    ensures
        final(items).deep_view().to_multiset() == old(items).deep_view().to_multiset(),
{
    items.shuffle(&mut rand::thread_rng());
}

/// Whether `regex::Regex::new` accepts `pattern`.
pub uninterp spec fn regex_valid(pattern: Seq<char>) -> bool;

/// Whether `regex::Regex::is_match` finds a match of `pattern`, compiled by
/// `regex::Regex::new`, anywhere in `text`.
pub uninterp spec fn regex_found(pattern: Seq<char>, text: Seq<char>) -> bool;

/// `regex::Regex::new` on `pattern` and, where that gives a regex,
/// `regex::Regex::is_match` of it on `text`: `None` where the pattern is
/// refused, else whether a match was found.
#[verifier::external_body]
pub(crate) fn regex_search(pattern: &str, text: &str) -> (r: Option<bool>)
    ensures
        r is Some == regex_valid(pattern@),
        r is Some ==> r->0 == regex_found(pattern@, text@),
{
    match regex::Regex::new(pattern) {
        Ok(re) => Some(re.is_match(text)),
        Err(_) => None,
    }
}

} // verus!

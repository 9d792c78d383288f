//! Case conversion, delegated to the `convert_case` crate and to std's
//! Unicode lowercasing. The results are pure functions of the input
//! characters, so each is given a name that contracts elsewhere speak of.

use vstd::prelude::*;
use convert_case::{Case, Casing};

verus! {

pub uninterp spec fn snake_of(s: Seq<char>) -> Seq<char>;

pub uninterp spec fn upper_snake_of(s: Seq<char>) -> Seq<char>;

pub uninterp spec fn pascal_of(s: Seq<char>) -> Seq<char>;

pub uninterp spec fn lower_of(s: Seq<char>) -> Seq<char>;

/// Relies on convert_case's `Casing::to_case` with `Case::Snake`: the result
/// depends on the input characters alone.
#[verifier::external_body]
pub fn to_snake(s: &str) -> (r: String)
    ensures
        r@ == snake_of(s@),
{
    s.to_case(Case::Snake)
}

/// Relies on convert_case's `Casing::to_case` with `Case::UpperSnake`: the
/// result depends on the input characters alone.
#[verifier::external_body]
pub fn to_upper_snake(s: &str) -> (r: String)
    ensures
        r@ == upper_snake_of(s@),
{
    s.to_case(Case::UpperSnake)
}

/// Relies on convert_case's `Casing::to_case` with `Case::Pascal`: the result
/// depends on the input characters alone.
#[verifier::external_body]
pub fn to_pascal(s: &str) -> (r: String)
    ensures
        r@ == pascal_of(s@),
{
    s.to_case(Case::Pascal)
}

/// Relies on `str::to_lowercase`: the result depends on the input characters
/// alone.
#[verifier::external_body]
pub fn to_lower(s: &str) -> (r: String)
    ensures
        r@ == lower_of(s@),
{
    s.to_lowercase()
}

} // verus!

//! Letter cases of names, as computed by the `convert_case` crate.
use vstd::prelude::*;
use convert_case::{Case, Casing};

verus! {

/// The letter cases that names are held to.
#[derive(PartialEq, Eq, Structural, Clone, Copy, Debug)]
pub enum TextCase {
    /// `PascalCase`
    Pascal,
    /// `camelCase`
    Camel,
    /// `UPPER_SNAKE_CASE`
    UpperSnake,
}

/// The text that `convert_case` makes of `s` in the given case.
pub uninterp spec fn spec_to_case(s: Seq<char>, case: TextCase) -> Seq<char>;

/// Calls `Casing::to_case` of `convert_case`. Its result is named
/// `spec_to_case` of the text and the case; what that conversion does
/// (splitting into words, changing letters) is left unstated.
#[verifier::external_body]
pub(crate) fn to_case(s: &str, case: TextCase) -> (r: String)
    ensures
        r@ == spec_to_case(s@, case),
{
    let c = match case {
        TextCase::Pascal => Case::Pascal,
        TextCase::Camel => Case::Camel,
        TextCase::UpperSnake => Case::UpperSnake,
    };
    s.to_case(c)
}

/// Calls `Casing::is_case` of `convert_case`, whose source compares the
/// text with its own conversion into the case: the result is true exactly
/// when `to_case` leaves the text unchanged.
#[verifier::external_body]
pub(crate) fn is_case(s: &str, case: TextCase) -> (r: bool)
    ensures
        r == (spec_to_case(s@, case) == s@),
{
    let c = match case {
        TextCase::Pascal => Case::Pascal,
        TextCase::Camel => Case::Camel,
        TextCase::UpperSnake => Case::UpperSnake,
    };
    s.is_case(c)
}

} // verus!

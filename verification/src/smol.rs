//! The small-string type of the `smol_str` crate, which holds the names that
//! an adapter is built with.

use smol_str::SmolStr;
use vstd::prelude::*;

verus! {

/// The immutable string type `smol_str::SmolStr`.
#[verifier::external_type_specification]
#[verifier::external_body]
pub struct ExSmolStr(SmolStr);

/// The characters that a [`SmolStr`] holds.
pub uninterp spec fn smol_text(s: SmolStr) -> Seq<char>;

/// Calls `<SmolStr as From<&str>>::from`: the string holds the characters it
/// is made of.
#[verifier::external_body]
pub(crate) fn smol_from_str(text: &str) -> (s: SmolStr)
    ensures
        smol_text(s) == text@,
{
    SmolStr::from(text)
}

/// Calls `<SmolStr as From<String>>::from`: the string holds the characters
/// it is made of.
#[verifier::external_body]
pub(crate) fn smol_from_string(text: String) -> (s: SmolStr)
    ensures
        smol_text(s) == text@,
{
    SmolStr::from(text)
}

/// Calls `SmolStr::as_str`, which is what the type dereferences to: the
/// characters that the string holds.
#[verifier::external_body]
pub(crate) fn smol_as_str(s: &SmolStr) -> (text: &str)
    ensures
        text@ == smol_text(*s),
{
    s.as_str()
}

/// Calls `<SmolStr as Clone>::clone`: the copy holds the same characters.
#[verifier::external_body]
pub(crate) fn smol_clone(s: &SmolStr) -> (copy: SmolStr)
    ensures
        smol_text(copy) == smol_text(*s),
{
    s.clone()
}

} // verus!

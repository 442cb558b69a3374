//! Token-level helpers: recognising native flags and folding case.

use vstd::prelude::*;
use vstd::string::StrSliceExecFns;

verus! {

/// The character that opens a token in native flag syntax.
pub const DASH: char = '-';

/// A token is in native flag syntax when its first character is a dash.
/// Dashes further inside the token do not count.
pub open spec fn is_flag(token: Seq<char>) -> bool {
    token.len() > 0 && token[0] == DASH
}

/// The lowercase form of a token: what `str::to_lowercase` of the standard
/// library returns for it, under the lowercase mapping of Unicode. Nothing
/// more is said of it here.
pub uninterp spec fn lowercase(token: Seq<char>) -> Seq<char>;

/// Whether `token` starts with a dash.
pub fn starts_with_dash(token: &str) -> (r: bool)
    ensures
        r == is_flag(token@),
{
    !token.is_empty() && token.get_char(0) == DASH
}

/// Calls `str::to_lowercase`. Not proved: that the string it returns is
/// [`lowercase`] of the argument, that is, that the result depends on the
/// characters of the argument and on nothing else. The call never fails.
#[verifier::external_body]
pub(crate) fn to_lowercase(token: &str) -> (r: String)
    ensures
        r@ == lowercase(token@),
{
    token.to_lowercase()
}

} // verus!

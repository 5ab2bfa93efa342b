//! The locations the pages redirect to.
use vstd::prelude::*;

use crate::text::concat3;

verus! {

/// The path `/{lang}` followed by `rest`.
pub open spec fn lang_path_spec(lang: Seq<char>, rest: Seq<char>) -> Seq<char> {
    "/"@ + lang + rest
}

/// The path `/{lang}` followed by `rest`.
pub fn lang_path(lang: &str, rest: &str) -> (r: String)
    ensures
        r@ == lang_path_spec(lang@, rest@),
{
    concat3("/", lang, rest)
}

/// Where the bare root sends visitors: the English home page.
pub fn raw_index_location() -> (r: String)
    ensures
        r@ == "/en"@,
{
    "/en".to_owned()
}

/// Where `/{lang}/user/` sends visitors: their profile.
pub fn user_index_location(lang: &str) -> (r: String)
    ensures
        r@ == lang_path_spec(lang@, "/profile"@),
{
    lang_path(lang, "/profile")
}

/// The sign-in page in `lang`.
pub fn log_in_location(lang: &str) -> (r: String)
    ensures
        r@ == lang_path_spec(lang@, "/log_in"@),
{
    lang_path(lang, "/log_in")
}

/// The conversion request form in `lang`, where the validation page sends a
/// visitor who has no request to validate.
pub fn conversion_form_location(lang: &str) -> (r: String)
    ensures
        r@ == lang_path_spec(lang@, "/conversion_request"@),
{
    lang_path(lang, "/conversion_request")
}

/// Where signing out leads: the home page in `lang`.
pub fn log_out_location(lang: &str) -> (r: String)
    ensures
        r@ == lang_path_spec(lang@, ""@),
{
    lang_path(lang, "")
}

} // verus!

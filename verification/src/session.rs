//! What a page knows of the signed-in user: the session values and the
//! language and path that every template receives.
use vstd::prelude::*;

use crate::text::{or_empty, str_eq};

verus! {

/// The values stored in the user's session, each `None` when it is absent or
/// could not be read.
#[derive(Debug, Clone)]
pub struct SessionValues {
    pub role: Option<String>,
    pub user_id: Option<String>,
    pub authority_id: Option<String>,
    pub expires_at: Option<String>,
}

/// The text of an optional session value: the value itself, or empty.
pub open spec fn value_or_empty(v: Option<String>) -> Seq<char> {
    match v {
        Some(s) => s@,
        None => Seq::empty(),
    }
}

/// Role, user id, authority id and expiry from the session, each empty when absent.
pub fn extract_session_data(session: SessionValues) -> (r: (String, String, String, String))
    ensures
        r.0@ == value_or_empty(session.role),
        r.1@ == value_or_empty(session.user_id),
        r.2@ == value_or_empty(session.authority_id),
        r.3@ == value_or_empty(session.expires_at),
{
    (
        or_empty(session.role),
        or_empty(session.user_id),
        or_empty(session.authority_id),
        or_empty(session.expires_at),
    )
}

/// The language a page is shown in: French when asked for, English otherwise.
pub open spec fn lang_spec(lang: Seq<char>) -> Seq<char> {
    if lang == "fr"@ {
        "fr"@
    } else {
        "en"@
    }
}

/// `"fr"` for `"fr"`, and `"en"` for anything else.
pub fn validated_lang(lang: &str) -> (r: &'static str)
    ensures
        r@ == lang_spec(lang@),
{
    if str_eq(lang, "fr") {
        "fr"
    } else {
        "en"
    }
}

/// The home page asks the API for the authorities only when the session holds
/// a token; without one it lists none.
pub fn lists_authorities(bearer: &str) -> (r: bool)
    ensures
        r == (bearer@.len() > 0),
{
    !bearer.is_empty()
}

/// The values every template receives.
#[derive(Debug, Clone)]
pub struct BasicContext {
    pub session_user: String,
    pub role: String,
    pub user_id: String,
    pub authority_id: String,
    pub expires_at: String,
    pub lang: String,
    pub path: String,
}

/// The basic context of a page: the signed-in identity (empty when none), the
/// session values, the validated language and the request path.
pub fn generate_basic_context(
    identity: Option<String>,
    lang: &str,
    path: &str,
    session: SessionValues,
) -> (r: BasicContext)
    ensures
        r.session_user@ == value_or_empty(identity),
        r.role@ == value_or_empty(session.role),
        r.user_id@ == value_or_empty(session.user_id),
        r.authority_id@ == value_or_empty(session.authority_id),
        r.expires_at@ == value_or_empty(session.expires_at),
        r.lang@ == lang_spec(lang@),
        r.path@ == path@,
{
    let session_user = or_empty(identity);
    let (role, user_id, authority_id, expires_at) = extract_session_data(session);
    let validated = validated_lang(lang);
    BasicContext {
        session_user,
        role,
        user_id,
        authority_id,
        expires_at,
        lang: validated.to_owned(),
        path: path.to_owned(),
    }
}

} // verus!

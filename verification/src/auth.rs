//! Signing in: the check of the sign-in form and what the session then holds.
use vstd::prelude::*;

use crate::routes::{lang_path, lang_path_spec};
use crate::text::{all_ascii, ascii_lower, lowercase, to_lowercase, trim, trim_str};

verus! {

/// The sign-in form: an empty email or password sends the visitor back to the
/// sign-in page (`Err` holds its location); otherwise `Ok` holds the email to
/// sign in with, lower-cased and trimmed (for an ASCII email, its capital
/// letters made small).
pub fn login_form_check(lang: &str, email: &str, password: &str) -> (r: Result<String, String>)
    ensures
        (email@.len() == 0 || password@.len() == 0) ==> (r matches Err(l) && l@ == lang_path_spec(
            lang@,
            "/log_in"@,
        )),
        (email@.len() > 0 && password@.len() > 0) ==> (r matches Ok(e) && e@ == trim(
            lowercase(email@),
        )),
        (email@.len() > 0 && password@.len() > 0 && all_ascii(email@)) ==> (r matches Ok(e) && e@
            == trim(ascii_lower(email@))),
{
    if email.is_empty() || password.is_empty() {
        return Err(lang_path(lang, "/log_in"));
    }
    let lowered = to_lowercase(email);
    Ok(trim_str(lowered.as_str()))
}

/// Where a successful sign-in leads: the site's root.
pub fn after_login_location() -> (r: String)
    ensures
        r@ == "/"@,
{
    "/".to_owned()
}

/// The session entries a sign-in stores, as `(key, value)`.
pub open spec fn login_entries_spec(
    email: Seq<char>,
    role: Seq<char>,
    bearer: Seq<char>,
    user_id: Option<Seq<char>>,
    authority_ids: Option<Seq<Seq<char>>>,
) -> Seq<(Seq<char>, Seq<char>)> {
    let base = seq![("role"@, role), ("session_user"@, email), ("bearer"@, bearer)];
    match user_id {
        None => base,
        Some(u) => {
            let with_user = base.push(("user_id"@, u));
            match authority_ids {
                Some(ids) if ids.len() > 0 => with_user.push(("authority_id"@, ids[0])),
                _ => with_user,
            }
        },
    }
}

/// The session entries a sign-in stores: the role, the user's email and the
/// bearer token; then the user's id when it could be looked up; then, when the
/// authorities the user created could be listed and there is one, the first one's id.
pub fn login_session_entries(
    email: String,
    role: String,
    bearer: String,
    user_id: Option<String>,
    authority_ids: Option<Vec<String>>,
) -> (r: Vec<(String, String)>)
    ensures
        r.deep_view() == login_entries_spec(
            email@,
            role@,
            bearer@,
            match user_id {
                Some(u) => Some(u@),
                None => None,
            },
            match authority_ids {
                Some(ids) => Some(ids.deep_view()),
                None => None,
            },
        ),
{
    let mut r: Vec<(String, String)> = Vec::new();
    r.push(("role".to_owned(), role));
    r.push(("session_user".to_owned(), email));
    r.push(("bearer".to_owned(), bearer));
    match user_id {
        Some(u) => {
            r.push(("user_id".to_owned(), u));
            match authority_ids {
                Some(ids) => {
                    if ids.len() > 0 {
                        let first = ids[0].clone();
                        r.push(("authority_id".to_owned(), first));
                    }
                },
                None => {},
            }
        },
        None => {},
    }
    assert(r.deep_view() =~= login_entries_spec(
        email@,
        role@,
        bearer@,
        match user_id {
            Some(u) => Some(u@),
            None => None,
        },
        match authority_ids {
            Some(ids) => Some(ids.deep_view()),
            None => None,
        },
    ));
    r
}

/// What a sign-in stores: always the role, the email and the token, in that
/// order; the user's id next when it is known; and then, when the user created at
/// least one authority, the first one's id as the last entry. No authority entry
/// is stored without the user's id or without an authority.
pub proof fn law_login_entries(
    email: Seq<char>,
    role: Seq<char>,
    bearer: Seq<char>,
    user_id: Option<Seq<char>>,
    authority_ids: Option<Seq<Seq<char>>>,
)
    ensures
        ({
            let e = login_entries_spec(email, role, bearer, user_id, authority_ids);
            &&& e.len() >= 3
            &&& e[0] == ("role"@, role)
            &&& e[1] == ("session_user"@, email)
            &&& e[2] == ("bearer"@, bearer)
            &&& user_id is None ==> e.len() == 3
            &&& user_id is Some ==> e.len() >= 4 && e[3] == ("user_id"@, user_id->0)
            &&& (user_id is Some && authority_ids is Some && authority_ids->0.len() >= 1) ==> e.len()
                == 5 && e[4] == ("authority_id"@, authority_ids->0[0])
            &&& (user_id is Some && (authority_ids is None || authority_ids->0.len() == 0)) ==> e.len()
                == 4
        }),
{
}

} // verus!

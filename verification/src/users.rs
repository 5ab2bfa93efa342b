//! Users: the forms that describe them, the search by name, and how a failed
//! lookup is answered.
use vstd::prelude::*;

use crate::routes::{lang_path, lang_path_spec};
use crate::text::{all_ascii, ascii_lower, contains, lowercase, str_contains, to_lowercase};

verus! {

/// A user's name and email, as a form submits them.
#[derive(Debug, Clone)]
pub struct UserForm {
    user_name: String,
    email: String,
}

impl UserForm {
    pub fn new(user_name: String, email: String) -> (r: Self)
        ensures
            r.user_name() == user_name,
            r.email() == email,
    {
        UserForm { user_name, email }
    }

    pub closed spec fn user_name(&self) -> String {
        self.user_name
    }

    pub closed spec fn email(&self) -> String {
        self.email
    }
}

/// A user as an administrator edits it: name, email, role and validation state.
#[derive(Debug, Clone)]
pub struct AdminUserForm {
    user_name: String,
    email: String,
    role: String,
    validated: String,
}

impl AdminUserForm {
    pub fn new(user_name: String, email: String, role: String, validated: String) -> (r: Self)
        ensures
            r.user_name() == user_name,
            r.email() == email,
            r.role() == role,
            r.validated() == validated,
    {
        AdminUserForm { user_name, email, role, validated }
    }

    pub closed spec fn user_name(&self) -> String {
        self.user_name
    }

    pub closed spec fn email(&self) -> String {
        self.email
    }

    pub closed spec fn role(&self) -> String {
        self.role
    }

    pub closed spec fn validated(&self) -> String {
        self.validated
    }
}

/// The name contains the searched text, both taken in lower case.
pub open spec fn name_matches(name: Seq<char>, search: Seq<char>) -> bool {
    contains(lowercase(name), lowercase(search))
}

/// The positions of the names that match the search, in increasing order.
pub open spec fn matching_positions(names: Seq<Seq<char>>, search: Seq<char>) -> Seq<usize>
    decreases names.len(),
{
    if names.len() == 0 {
        seq![]
    } else {
        let rest = matching_positions(names.drop_last(), search);
        if name_matches(names.last(), search) {
            rest.push((names.len() - 1) as usize)
        } else {
            rest
        }
    }
}

/// The positions of the names that contain the search text, ASCII capital
/// letters taken as small ones, in increasing order.
pub open spec fn ascii_matching_positions(names: Seq<Seq<char>>, search: Seq<char>) -> Seq<usize>
    decreases names.len(),
{
    if names.len() == 0 {
        seq![]
    } else {
        let rest = ascii_matching_positions(names.drop_last(), search);
        if contains(ascii_lower(names.last()), ascii_lower(search)) {
            rest.push((names.len() - 1) as usize)
        } else {
            rest
        }
    }
}

/// Every name is ASCII text.
pub open spec fn all_ascii_names(names: Seq<Seq<char>>) -> bool {
    forall|i: int| 0 <= i < names.len() ==> all_ascii(#[trigger] names[i])
}

/// The positions of the users whose name contains `search`, case ignored, in
/// increasing order.
pub fn users_matching(names: &Vec<String>, search: &str) -> (r: Vec<usize>)
    ensures
        r@ == matching_positions(names.deep_view(), search@),
        (all_ascii(search@) && all_ascii_names(names.deep_view())) ==> r@
            == ascii_matching_positions(names.deep_view(), search@),
{
    let lowered = to_lowercase(search);
    let mut r: Vec<usize> = Vec::new();
    let n = names.len();
    let ghost nv = names.deep_view();
    for i in 0..n
        invariant
            n == names.len(),
            nv == names.deep_view(),
            lowered@ == lowercase(search@),
            r@ == matching_positions(nv.take(i as int), search@),
            all_ascii(search@) ==> lowered@ == ascii_lower(search@),
            (all_ascii(search@) && all_ascii_names(nv)) ==> r@ == ascii_matching_positions(
                nv.take(i as int),
                search@,
            ),
    {
        assert(nv.take(i + 1).drop_last() =~= nv.take(i as int));
        assert(nv.take(i + 1).last() == names@[i as int]@);
        let name = to_lowercase(names[i].as_str());
        proof {
            if all_ascii_names(nv) {
                assert(all_ascii(nv[i as int]));
            }
        }
        if str_contains(name.as_str(), lowered.as_str()) {
            r.push(i);
        }
    }
    assert(nv.take(n as int) =~= nv);
    r
}

/// The API refused the request because the session's token expired or is not accepted.
pub open spec fn is_auth_failure(message: Seq<char>) -> bool {
    contains(message, "ExpiredSignature"@) || contains(message, "Unauthorized"@)
}

/// Where a failed user lookup leads: back to sign-in when the token expired or
/// was refused (`Some`), else nowhere, the page shows the error (`None`).
pub fn redirect_on_auth_failure(lang: &str, message: &str) -> (r: Option<String>)
    ensures
        is_auth_failure(message@) ==> (r matches Some(l) && l@ == lang_path_spec(lang@, "/log_in"@)),
        !is_auth_failure(message@) ==> r is None,
{
    if str_contains(message, "ExpiredSignature") || str_contains(message, "Unauthorized") {
        Some(lang_path(lang, "/log_in"))
    } else {
        None
    }
}

/// A page that needs the session's token: the token when the session holds one
/// (`Ok`), else the sign-in page's location (`Err`).
pub fn bearer_or_sign_in(lang: &str, bearer: Option<String>) -> (r: Result<String, String>)
    ensures
        bearer is Some ==> r == Ok::<String, String>(bearer->0),
        bearer is None ==> (r matches Err(l) && l@ == lang_path_spec(lang@, "/log_in"@)),
{
    match bearer {
        Some(b) => Ok(b),
        None => Err(lang_path(lang, "/log_in")),
    }
}

/// A page that needs a signed-in user: the bearer token and the user's email when
/// the session holds both (`Ok`), else the sign-in page's location (`Err`).
pub fn require_sign_in(lang: &str, bearer: Option<String>, email: Option<String>) -> (r: Result<
    (String, String),
    String,
>)
    ensures
        (bearer is Some && email is Some) ==> r == Ok::<(String, String), String>(
            (bearer->0, email->0),
        ),
        !(bearer is Some && email is Some) ==> (r matches Err(l) && l@ == lang_path_spec(
            lang@,
            "/log_in"@,
        )),
{
    match (bearer, email) {
        (Some(b), Some(e)) => Ok((b, e)),
        _ => Err(lang_path(lang, "/log_in")),
    }
}

proof fn lemma_positions(names: Seq<Seq<char>>, search: Seq<char>)
    requires
        names.len() <= usize::MAX,
    ensures
        forall|k: int|
            0 <= k < matching_positions(names, search).len() ==> (#[trigger] matching_positions(
                names,
                search,
            )[k]) < names.len(),
        forall|k1: int, k2: int|
            0 <= k1 < k2 < matching_positions(names, search).len() ==> #[trigger] matching_positions(
                names,
                search,
            )[k1] < #[trigger] matching_positions(names, search)[k2],
        forall|i: int|
            0 <= i < names.len() ==> (matching_positions(names, search).contains(i as usize)
                <==> contains(lowercase(#[trigger] names[i]), lowercase(search))),
    decreases names.len(),
{
    if names.len() > 0 {
        let d = names.drop_last();
        lemma_positions(d, search);
        let r = matching_positions(d, search);
        let m = matching_positions(names, search);
        let last = (names.len() - 1) as usize;
        assert forall|i: int| 0 <= i < names.len() implies (m.contains(i as usize) <==> contains(
            lowercase(#[trigger] names[i]),
            lowercase(search),
        )) by {
            if i < d.len() {
                assert(d[i] == names[i]);
                if m.contains(i as usize) {
                    let k = choose|k: int| 0 <= k < m.len() && m[k] == i as usize;
                    if k < r.len() {
                        assert(r[k] == m[k]);
                    }
                }
                if r.contains(i as usize) {
                    let k = choose|k: int| 0 <= k < r.len() && r[k] == i as usize;
                    assert(m[k] == r[k]);
                }
            } else {
                if m.contains(i as usize) {
                    let k = choose|k: int| 0 <= k < m.len() && m[k] == i as usize;
                    if k < r.len() {
                        assert(r[k] == m[k]);
                    }
                }
                if contains(lowercase(names[i]), lowercase(search)) {
                    assert(m[m.len() - 1] == last);
                }
            }
        }
    }
}

/// The search by name gives, in increasing order and each once, exactly the
/// positions of the names that contain the searched text, both taken in lower case.
pub proof fn law_users_matching(names: Seq<Seq<char>>, search: Seq<char>)
    requires
        names.len() <= usize::MAX,
    ensures
        forall|k1: int, k2: int|
            0 <= k1 < k2 < matching_positions(names, search).len() ==> #[trigger] matching_positions(
                names,
                search,
            )[k1] < #[trigger] matching_positions(names, search)[k2],
        forall|i: int|
            0 <= i < names.len() ==> (matching_positions(names, search).contains(i as usize)
                <==> contains(lowercase(#[trigger] names[i]), lowercase(search))),
{
    lemma_positions(names, search);
}

} // verus!

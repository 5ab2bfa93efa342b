//! The GraphQL operations of the backend API: how each one authenticates and
//! how its reply is settled into data or an error.
use vstd::prelude::*;

use crate::text::{concat2, join, join_strings, trim, trim_str};

verus! {

/// How an operation passes the session's bearer token.
#[derive(Debug, Clone, Copy, PartialEq, Eq, Structural)]
pub enum AuthHeader {
    /// `Authorization: Bearer <token>`
    AuthorizationBearer,
    /// `Bearer: <token>`
    BearerToken,
    /// No token is sent.
    Anonymous,
}

/// What an operation does with the errors a reply lists.
#[derive(Debug, Clone, Copy, PartialEq, Eq, Structural)]
pub enum OnErrors {
    /// Report them and use the data anyway.
    Report,
    /// Fail with their messages joined by `", "`.
    Fail,
}

/// What an operation does when a reply carries no data.
#[derive(Debug, Clone, Copy, PartialEq, Eq, Structural)]
pub enum OnMissingData {
    /// Fail with the error "missing response data".
    Fail,
    /// Stop: the caller cannot go on without data.
    Abort,
}

/// How an operation authenticates and settles its reply.
#[derive(Debug, Clone, Copy, PartialEq, Eq, Structural)]
pub struct RequestPolicy {
    pub auth: AuthHeader,
    pub on_errors: OnErrors,
    pub on_missing: OnMissingData,
}

/// The header `(name, value)` that carries `bearer` under `auth`, if any.
pub open spec fn auth_header_spec(auth: AuthHeader, bearer: Seq<char>) -> Option<(Seq<char>, Seq<char>)> {
    match auth {
        AuthHeader::AuthorizationBearer => Some(("Authorization"@, "Bearer "@ + bearer)),
        AuthHeader::BearerToken => Some(("Bearer"@, bearer)),
        AuthHeader::Anonymous => None,
    }
}

/// The header that carries `bearer` under `auth`, as `(name, value)`.
pub fn auth_header(auth: AuthHeader, bearer: &str) -> (r: Option<(String, String)>)
    ensures
        match auth_header_spec(auth, bearer@) {
            Some((n, v)) => r matches Some((rn, rv)) && rn@ == n && rv@ == v,
            None => r is None,
        },
{
    match auth {
        AuthHeader::AuthorizationBearer => Some(
            ("Authorization".to_owned(), concat2("Bearer ", bearer)),
        ),
        AuthHeader::BearerToken => Some(("Bearer".to_owned(), bearer.to_owned())),
        AuthHeader::Anonymous => None,
    }
}

/// The `Authorization` header for `bearer` once trimmed, or none when it is blank.
pub fn with_optional_bearer(bearer: &str) -> (r: Option<(String, String)>)
    ensures
        trim(bearer@).len() == 0 ==> r is None,
        trim(bearer@).len() > 0 ==> (r matches Some((n, v)) && n@ == "Authorization"@ && v@
            == "Bearer "@ + trim(bearer@)),
{
    let token = trim_str(bearer);
    if token.as_str().is_empty() {
        None
    } else {
        Some(("Authorization".to_owned(), concat2("Bearer ", token.as_str())))
    }
}

/// What became of an operation's reply.
#[derive(Debug)]
pub enum ResponseOutcome<T> {
    /// The reply's data.
    Data(T),
    /// The operation fails with this message.
    Error(String),
    /// The reply carries no data and the operation cannot go on.
    Abort,
}

/// The reply settled under `policy`: with `OnErrors::Fail`, listed errors fail the
/// operation with their messages joined by `", "`; otherwise the data is used,
/// and missing data fails or aborts as `on_missing` says.
pub fn settle_response<T>(policy: RequestPolicy, data: Option<T>, errors: Option<Vec<String>>) -> (r:
    ResponseOutcome<T>)
    ensures
        (policy.on_errors == OnErrors::Fail && errors is Some) ==> (r matches ResponseOutcome::Error(
            m,
        ) && m@ == join(errors->0.deep_view(), ", "@)),
        !(policy.on_errors == OnErrors::Fail && errors is Some) ==> match data {
            Some(d) => r == ResponseOutcome::Data(d),
            None => match policy.on_missing {
                OnMissingData::Fail => r matches ResponseOutcome::Error(m) && m@
                    == "missing response data"@,
                OnMissingData::Abort => r is Abort,
            },
        },
{
    if policy.on_errors == OnErrors::Fail {
        match errors {
            Some(list) => {
                return ResponseOutcome::Error(join_strings(&list, ", "));
            },
            None => {},
        }
    }
    match data {
        Some(d) => ResponseOutcome::Data(d),
        None => match policy.on_missing {
            OnMissingData::Fail => ResponseOutcome::Error("missing response data".to_owned()),
            OnMissingData::Abort => ResponseOutcome::Abort,
        },
    }
}

/// What the authority page does next.
#[derive(Debug, Clone, Copy, PartialEq, Eq, Structural)]
pub enum AuthorityPageStep {
    /// Show the authority that was found.
    Show,
    /// The detailed lookup failed: look the authority up without its requests.
    TryBasic,
    /// Both lookups failed: answer with a server error.
    Fail,
}

/// The authority page first looks the authority up with its conversion requests;
/// when that fails it falls back to the lookup without them (`basic_found` is
/// `None` until it has been tried), and fails when that fails too.
pub fn authority_page_step(detailed_found: bool, basic_found: Option<bool>) -> (r: AuthorityPageStep)
    ensures
        detailed_found ==> r == AuthorityPageStep::Show,
        !detailed_found ==> r == match basic_found {
            None => AuthorityPageStep::TryBasic,
            Some(true) => AuthorityPageStep::Show,
            Some(false) => AuthorityPageStep::Fail,
        },
{
    if detailed_found {
        AuthorityPageStep::Show
    } else {
        match basic_found {
            None => AuthorityPageStep::TryBasic,
            Some(true) => AuthorityPageStep::Show,
            Some(false) => AuthorityPageStep::Fail,
        }
    }
}

/// The policy of an operation that authenticates with `auth`, reports the errors
/// a reply lists and settles missing data as `on_missing` says.
pub open spec fn reporting_policy(on_missing: OnMissingData, auth: AuthHeader) -> RequestPolicy {
    RequestPolicy { auth, on_errors: OnErrors::Report, on_missing }
}

/// Looks up one authority by id.
pub struct AuthorityById;

impl AuthorityById {
    pub fn policy() -> (r: RequestPolicy)
        ensures
            r == reporting_policy(OnMissingData::Fail, AuthHeader::AuthorizationBearer),
    {
        RequestPolicy {
            auth: AuthHeader::AuthorizationBearer,
            on_errors: OnErrors::Report,
            on_missing: OnMissingData::Fail,
        }
    }
}

/// Looks up one authority by id, with its conversion requests.
pub struct AuthorityWithRequestsById;

impl AuthorityWithRequestsById {
    pub fn policy() -> (r: RequestPolicy)
        ensures
            r == reporting_policy(OnMissingData::Fail, AuthHeader::AuthorizationBearer),
    {
        RequestPolicy {
            auth: AuthHeader::AuthorizationBearer,
            on_errors: OnErrors::Report,
            on_missing: OnMissingData::Fail,
        }
    }
}

/// Lists every authority.
pub struct AllAuthorities;

impl AllAuthorities {
    pub fn policy() -> (r: RequestPolicy)
        ensures
            r == reporting_policy(OnMissingData::Fail, AuthHeader::AuthorizationBearer),
    {
        RequestPolicy {
            auth: AuthHeader::AuthorizationBearer,
            on_errors: OnErrors::Report,
            on_missing: OnMissingData::Fail,
        }
    }
}

/// Submits a conversion request.
pub struct SubmitConversion;

impl SubmitConversion {
    pub fn policy() -> (r: RequestPolicy)
        ensures
            r == reporting_policy(OnMissingData::Abort, AuthHeader::AuthorizationBearer),
    {
        RequestPolicy {
            auth: AuthHeader::AuthorizationBearer,
            on_errors: OnErrors::Report,
            on_missing: OnMissingData::Abort,
        }
    }
}

/// Looks up one conversion request by id.
pub struct ConversionRequestById;

impl ConversionRequestById {
    pub fn policy() -> (r: RequestPolicy)
        ensures
            r == reporting_policy(OnMissingData::Abort, AuthHeader::AuthorizationBearer),
    {
        RequestPolicy {
            auth: AuthHeader::AuthorizationBearer,
            on_errors: OnErrors::Report,
            on_missing: OnMissingData::Abort,
        }
    }
}

/// Lists every stored document with its metadata.
pub struct AllDataObjects;

impl AllDataObjects {
    pub fn policy() -> (r: RequestPolicy)
        ensures
            r == reporting_policy(OnMissingData::Abort, AuthHeader::BearerToken),
    {
        RequestPolicy {
            auth: AuthHeader::BearerToken,
            on_errors: OnErrors::Report,
            on_missing: OnMissingData::Abort,
        }
    }
}

/// Signs a user in with email and password.
pub struct LogIn;

impl LogIn {
    pub fn policy() -> (r: RequestPolicy)
        ensures
            r == reporting_policy(OnMissingData::Abort, AuthHeader::Anonymous),
    {
        RequestPolicy {
            auth: AuthHeader::Anonymous,
            on_errors: OnErrors::Report,
            on_missing: OnMissingData::Abort,
        }
    }
}

/// Lists the metadata that carries a tag.
pub struct MetadataByTag;

impl MetadataByTag {
    pub fn policy() -> (r: RequestPolicy)
        ensures
            r == reporting_policy(OnMissingData::Abort, AuthHeader::BearerToken),
    {
        RequestPolicy {
            auth: AuthHeader::BearerToken,
            on_errors: OnErrors::Report,
            on_missing: OnMissingData::Abort,
        }
    }
}

/// Lists the metadata whose tags match a pattern.
pub struct SearchMetadataByTag;

impl SearchMetadataByTag {
    pub fn policy() -> (r: RequestPolicy)
        ensures
            r == reporting_policy(OnMissingData::Abort, AuthHeader::BearerToken),
    {
        RequestPolicy {
            auth: AuthHeader::BearerToken,
            on_errors: OnErrors::Report,
            on_missing: OnMissingData::Abort,
        }
    }
}

/// Lists the metadata of a domain.
pub struct MetadataByDomain;

impl MetadataByDomain {
    pub fn policy() -> (r: RequestPolicy)
        ensures
            r == reporting_policy(OnMissingData::Abort, AuthHeader::BearerToken),
    {
        RequestPolicy {
            auth: AuthHeader::BearerToken,
            on_errors: OnErrors::Report,
            on_missing: OnMissingData::Abort,
        }
    }
}

/// Looks up one user by id.
pub struct UserById;

impl UserById {
    pub fn policy() -> (r: RequestPolicy)
        ensures
            r == reporting_policy(OnMissingData::Abort, AuthHeader::AuthorizationBearer),
    {
        RequestPolicy {
            auth: AuthHeader::AuthorizationBearer,
            on_errors: OnErrors::Report,
            on_missing: OnMissingData::Abort,
        }
    }
}

/// Lists every user.
pub struct AllUsers;

impl AllUsers {
    pub fn policy() -> (r: RequestPolicy)
        ensures
            r == (RequestPolicy {
                auth: AuthHeader::AuthorizationBearer,
                on_errors: OnErrors::Fail,
                on_missing: OnMissingData::Fail,
            }),
    {
        RequestPolicy {
            auth: AuthHeader::AuthorizationBearer,
            on_errors: OnErrors::Fail,
            on_missing: OnMissingData::Fail,
        }
    }
}

/// Looks up one user by email.
pub struct UserByEmail;

impl UserByEmail {
    pub fn policy() -> (r: RequestPolicy)
        ensures
            r == (RequestPolicy {
                auth: AuthHeader::AuthorizationBearer,
                on_errors: OnErrors::Fail,
                on_missing: OnMissingData::Fail,
            }),
    {
        RequestPolicy {
            auth: AuthHeader::AuthorizationBearer,
            on_errors: OnErrors::Fail,
            on_missing: OnMissingData::Fail,
        }
    }
}

} // verus!

use frontend::auth::{after_login_location, login_form_check, login_session_entries};
use frontend::config::ServerSettings;
use frontend::graphql::{
    auth_header, settle_response, with_optional_bearer, AllAuthorities, AllDataObjects, AllUsers,
    AuthHeader, AuthorityById, AuthorityWithRequestsById, ConversionRequestById, LogIn,
    MetadataByDomain, MetadataByTag, OnErrors, OnMissingData, ResponseOutcome, SearchMetadataByTag,
    SubmitConversion, UserByEmail, UserById,
};
use frontend::metadata::{filter_by_domain, filter_by_tag, search_by_pattern, DataObjectRecord, MetadataRecord};
use frontend::routes::{lang_path, log_in_location, log_out_location, raw_index_location, user_index_location};
use frontend::users::{redirect_on_auth_failure, require_sign_in, users_matching, AdminUserForm, UserForm};
use frontend::{extract_session_data, generate_basic_context, SessionValues};

fn session(role: Option<&str>) -> SessionValues {
    SessionValues {
        role: role.map(|s| s.to_string()),
        user_id: Some("u1".into()),
        authority_id: None,
        expires_at: Some("2030".into()),
    }
}

#[test]
fn session_data_defaults_to_empty() {
    assert_eq!(
        extract_session_data(session(None)),
        ("".to_string(), "u1".to_string(), "".to_string(), "2030".to_string())
    );
}

#[test]
fn basic_context_validates_language() {
    let c = generate_basic_context(Some("a@b.c".into()), "fr", "/fr/x", session(Some("admin")));
    assert_eq!(c.lang, "fr");
    assert_eq!(c.session_user, "a@b.c");
    assert_eq!(c.role, "admin");
    assert_eq!(c.path, "/fr/x");
    assert_eq!(generate_basic_context(None, "de", "/", session(None)).lang, "en");
    assert_eq!(generate_basic_context(None, "en", "/", session(None)).session_user, "");
}

#[test]
fn locations() {
    assert_eq!(lang_path("en", "/x"), "/en/x");
    assert_eq!(raw_index_location(), "/en");
    assert_eq!(user_index_location("fr"), "/fr/profile");
    assert_eq!(log_in_location("en"), "/en/log_in");
    assert_eq!(log_out_location("fr"), "/fr");
    assert_eq!(after_login_location(), "/");
}

#[test]
fn login_form() {
    assert_eq!(login_form_check("en", "", "pw"), Err("/en/log_in".to_string()));
    assert_eq!(login_form_check("fr", "a@b.c", ""), Err("/fr/log_in".to_string()));
    assert_eq!(login_form_check("en", "  Alice@Example.COM ", "pw"), Ok("alice@example.com".to_string()));
}

#[test]
fn login_session() {
    let e = login_session_entries("a".into(), "r".into(), "b".into(), Some("u".into()), Some(vec!["x".into(), "y".into()]));
    let expected: Vec<(String, String)> = vec![
        ("role".into(), "r".into()), ("session_user".into(), "a".into()), ("bearer".into(), "b".into()),
        ("user_id".into(), "u".into()), ("authority_id".into(), "x".into()),
    ];
    assert_eq!(e, expected);
    assert_eq!(login_session_entries("a".into(), "r".into(), "b".into(), Some("u".into()), Some(vec![])).len(), 4);
    assert_eq!(login_session_entries("a".into(), "r".into(), "b".into(), None, Some(vec!["x".into()])).len(), 3);
}

#[test]
fn bearer_headers() {
    assert_eq!(with_optional_bearer("   "), None);
    assert_eq!(with_optional_bearer(" tok "), Some(("Authorization".to_string(), "Bearer tok".to_string())));
    assert_eq!(auth_header(AuthHeader::AuthorizationBearer, "t"), Some(("Authorization".to_string(), "Bearer t".to_string())));
    assert_eq!(auth_header(AuthHeader::BearerToken, "t"), Some(("Bearer".to_string(), "t".to_string())));
    assert_eq!(auth_header(AuthHeader::Anonymous, "t"), None);
}

#[test]
fn operation_policies() {
    for p in [AuthorityById::policy(), AuthorityWithRequestsById::policy(), AllAuthorities::policy()] {
        assert_eq!((p.auth, p.on_errors, p.on_missing), (AuthHeader::AuthorizationBearer, OnErrors::Report, OnMissingData::Fail));
    }
    for p in [SubmitConversion::policy(), ConversionRequestById::policy(), UserById::policy()] {
        assert_eq!((p.auth, p.on_errors, p.on_missing), (AuthHeader::AuthorizationBearer, OnErrors::Report, OnMissingData::Abort));
    }
    for p in [AllDataObjects::policy(), MetadataByTag::policy(), SearchMetadataByTag::policy(), MetadataByDomain::policy()] {
        assert_eq!((p.auth, p.on_errors, p.on_missing), (AuthHeader::BearerToken, OnErrors::Report, OnMissingData::Abort));
    }
    assert_eq!(LogIn::policy().auth, AuthHeader::Anonymous);
    for p in [AllUsers::policy(), UserByEmail::policy()] {
        assert_eq!((p.auth, p.on_errors, p.on_missing), (AuthHeader::AuthorizationBearer, OnErrors::Fail, OnMissingData::Fail));
    }
}

#[test]
fn settling_replies() {
    match settle_response(AllUsers::policy(), Some(1), Some(vec!["a".into(), "b".into()])) {
        ResponseOutcome::Error(m) => assert_eq!(m, "a, b"),
        other => panic!("{:?}", other),
    }
    match settle_response(AllUsers::policy(), None::<i32>, None) {
        ResponseOutcome::Error(m) => assert_eq!(m, "missing response data"),
        other => panic!("{:?}", other),
    }
    match settle_response(AuthorityById::policy(), Some(7), Some(vec!["warn".into()])) {
        ResponseOutcome::Data(d) => assert_eq!(d, 7),
        other => panic!("{:?}", other),
    }
    assert!(matches!(settle_response(UserById::policy(), None::<i32>, None), ResponseOutcome::Abort));
}

fn record(id: &str, domain: &str, tags: Vec<Option<&str>>) -> DataObjectRecord {
    DataObjectRecord {
        id: id.into(),
        title: format!("title {}", id),
        description: "d".into(),
        created_at: "2024-01-01".into(),
        metadata: MetadataRecord {
            id: format!("m{}", id),
            domain: domain.into(),
            tags: tags.into_iter().map(|t| t.map(|s| s.to_string())).collect(),
        },
    }
}

#[test]
fn metadata_filters() {
    let objs = vec![
        record("1", "CYBER", vec![Some("SIGINT"), None]),
        record("2", "INTEL", vec![Some("sigint-east")]),
        record("3", "CYBER", vec![Some("HUMINT")]),
    ];
    let by_tag = filter_by_tag(&objs, "SIGINT");
    assert_eq!(by_tag.len(), 1);
    assert_eq!(by_tag[0].id, "m1");
    assert_eq!(by_tag[0].tags, vec!["SIGINT"]);
    assert_eq!(by_tag[0].data_object.as_ref().unwrap().title, "title 1");
    let search: Vec<String> = search_by_pattern(&objs, "SigInt").into_iter().map(|m| m.id).collect();
    assert_eq!(search, vec!["m1", "m2"]);
    let by_domain: Vec<String> = filter_by_domain(&objs, "CYBER").into_iter().map(|m| m.id).collect();
    assert_eq!(by_domain, vec!["m1", "m3"]);
    assert!(filter_by_domain(&objs, "cyber").is_empty());
}

#[test]
fn user_search_and_failures() {
    let names = vec!["Alice Martin".to_string(), "Bob".to_string(), "MARTINE".to_string()];
    assert_eq!(users_matching(&names, "martin"), vec![0, 2]);
    assert_eq!(users_matching(&names, ""), vec![0, 1, 2]);
    assert_eq!(redirect_on_auth_failure("en", "GraphQL: ExpiredSignature"), Some("/en/log_in".to_string()));
    assert_eq!(redirect_on_auth_failure("fr", "401 Unauthorized"), Some("/fr/log_in".to_string()));
    assert_eq!(redirect_on_auth_failure("en", "timeout"), None);
    assert_eq!(require_sign_in("en", Some("b".into()), Some("e".into())), Ok(("b".to_string(), "e".to_string())));
    assert_eq!(require_sign_in("en", None, Some("e".into())), Err("/en/log_in".to_string()));
    assert_eq!(require_sign_in("en", Some("b".into()), None), Err("/en/log_in".to_string()));
    let _ = UserForm::new("n".into(), "e".into());
    let _ = AdminUserForm::new("n".into(), "e".into(), "admin".into(), "yes".into());
}

#[test]
fn server_settings() {
    let t = ServerSettings::from_env(None, None, None, None);
    assert_eq!((t.host.as_str(), t.port.as_str(), t.api_url.as_str()), ("127.0.0.1", "8088", "http://127.0.0.1:8080/graphql"));
    assert_eq!(t.bind_address(), "127.0.0.1:8088");
    let p = ServerSettings::from_env(Some("production".into()), Some("0.0.0.0".into()), Some("80".into()), None);
    assert_eq!(p.api_url, "http://security-converter-api.security-converter.svc.cluster.local/graphql");
    assert_eq!(p.bind_address(), "0.0.0.0:80");
    let q = ServerSettings::from_env(Some("production".into()), Some("h".into()), Some("1".into()), Some("http://api".into()));
    assert_eq!(q.api_url, "http://api");
}

#[test]
fn exact_tag_results_are_among_pattern_results() {
    let objs = vec![
        record("1", "CYBER", vec![Some("Ops"), None]),
        record("2", "INTEL", vec![Some("ops-east")]),
        record("3", "CYBER", vec![Some("OPS")]),
        record("4", "CYBER", vec![None]),
    ];
    for tag in ["Ops", "OPS", "ops-east", "missing"] {
        let exact: Vec<String> = filter_by_tag(&objs, tag).into_iter().map(|m| m.id).collect();
        let search: Vec<String> = search_by_pattern(&objs, tag).into_iter().map(|m| m.id).collect();
        for id in &exact {
            assert!(search.contains(id), "{} {}", tag, id);
        }
    }
}

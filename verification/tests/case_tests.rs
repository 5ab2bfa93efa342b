use frontend::auth::login_form_check;
use frontend::conversion::{present_values, submission_error_message};
use frontend::graphql::{authority_page_step, AuthorityPageStep};
use frontend::llm::{ollama_extraction_prompt, select_provider, ProviderKind};
use frontend::metadata::{search_by_pattern, DataObjectRecord, MetadataRecord};
use frontend::routes::conversion_form_location;
use frontend::session::lists_authorities;
use frontend::users::{bearer_or_sign_in, users_matching};

fn doc(id: &str, tags: Vec<Option<&str>>) -> DataObjectRecord {
    DataObjectRecord {
        id: id.to_string(),
        title: format!("title {}", id),
        description: "d".to_string(),
        created_at: "2024".to_string(),
        metadata: MetadataRecord {
            id: format!("m{}", id),
            domain: "INTEL".to_string(),
            tags: tags.into_iter().map(|t| t.map(|s| s.to_string())).collect(),
        },
    }
}

#[test]
fn pattern_case_does_not_matter() {
    let objs = vec![
        doc("1", vec![Some("NoForn-Eyes"), None]),
        doc("2", vec![Some("fvey")]),
        doc("3", vec![Some("NOFORN")]),
    ];
    let lower: Vec<String> = search_by_pattern(&objs, "noforn").iter().map(|e| e.id.clone()).collect();
    let upper: Vec<String> = search_by_pattern(&objs, "NOFORN").iter().map(|e| e.id.clone()).collect();
    let mixed: Vec<String> = search_by_pattern(&objs, "nOfOrN").iter().map(|e| e.id.clone()).collect();
    assert_eq!(lower, vec!["m1".to_string(), "m3".to_string()]);
    assert_eq!(upper, lower);
    assert_eq!(mixed, lower);
}

#[test]
fn upper_case_provider_name_selects_gemini() {
    assert_eq!(select_provider(Some("GEMINI".to_string())), ProviderKind::Gemini);
    assert_eq!(select_provider(Some("Gemini".to_string())), ProviderKind::Gemini);
    assert_eq!(select_provider(Some("gemini-pro".to_string())), ProviderKind::Ollama);
    assert_eq!(select_provider(None), ProviderKind::Ollama);
}

#[test]
fn email_is_lower_cased_and_trimmed() {
    assert_eq!(login_form_check("en", " A@B.C ", "pw"), Ok("a@b.c".to_string()));
    assert_eq!(login_form_check("fr", "A@B.C", ""), Err("/fr/log_in".to_string()));
}

#[test]
fn user_search_ignores_case() {
    let names = vec!["Alice Smith".to_string(), "BOB".to_string(), "smithers".to_string()];
    assert_eq!(users_matching(&names, "SMITH"), vec![0, 2]);
    assert_eq!(users_matching(&names, "bob"), vec![1]);
}

#[test]
fn present_values_keep_order() {
    let items = vec![Some("a".to_string()), None, Some("b".to_string())];
    assert_eq!(present_values(&items), vec!["a".to_string(), "b".to_string()]);
    assert_eq!(present_values(&vec![None]), Vec::<String>::new());
}

#[test]
fn selections_are_written_as_json() {
    let countries = vec!["A\"B".to_string(), "C\\D".to_string(), "E\nF\u{1}\t".to_string()];
    let none: Vec<String> = vec![];
    let p = ollama_extraction_prompt("DOC", &countries, &none, &none);
    assert!(p.contains("selected_countries=[\"A\\\"B\",\"C\\\\D\",\"E\\nF\\u0001\\t\"]\n"));
    assert!(p.contains("selected_organizations=[]\n"));
}

#[test]
fn small_page_decisions() {
    assert_eq!(conversion_form_location("fr"), "/fr/conversion_request");
    assert_eq!(bearer_or_sign_in("en", Some("tok".to_string())), Ok("tok".to_string()));
    assert_eq!(bearer_or_sign_in("en", None), Err("/en/log_in".to_string()));
    assert!(lists_authorities("tok"));
    assert!(!lists_authorities(""));
    assert_eq!(authority_page_step(true, None), AuthorityPageStep::Show);
    assert_eq!(authority_page_step(false, None), AuthorityPageStep::TryBasic);
    assert_eq!(authority_page_step(false, Some(true)), AuthorityPageStep::Show);
    assert_eq!(authority_page_step(false, Some(false)), AuthorityPageStep::Fail);
    assert_eq!(submission_error_message("boom"), "Unable to submit conversion request: boom");
}

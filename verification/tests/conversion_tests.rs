use frontend::conversion::{
    build_conversion_request, conversion_input, extraction_prompt, join_optional_list, join_present,
    resolve_authority_id, submit_document_finish, submit_document_prompt, submit_document_start,
    validation_lists, AuthorityInfo, DocumentSubmissionForm, Domain, InsertableMetadata, LLMFields,
    SubmitStart, Timestamp, ValidationForm,
};

fn blank_form(content: &str) -> DocumentSubmissionForm {
    DocumentSubmissionForm {
        selected_authority_id: None,
        security_classification_level: "SECRET".to_string(),
        alb: None, aus: None, bel: None, bgr: None, can: None, hrv: None, cze: None, dnk: None,
        est: None, fin: None, fra: None, deu: None, grc: None, hun: None, isl: None, ita: None,
        lva: None, ltu: None, lux: None, mne: None, nld: None, nzl: None, mkd: None, nor: None,
        pol: None, prt: None, rou: None, svk: None, svn: None, esp: None, swe: None, tur: None,
        gbr: None, usa: None,
        nato: None, eu: None, un: None, fvey: None, aukus: None, quad: None,
        disclosure_category: "NONE".to_string(),
        cui: None, fouo: None, les: None, sbu: None, noforn: None, propin: None, orcon: None,
        handling_authority: "".to_string(),
        content: content.to_string(),
    }
}

fn fields() -> LLMFields {
    LLMFields {
        title: "Report".to_string(),
        description: "Two sentences. Here.".to_string(),
        domain: Domain::CYBER,
        tags: vec![Some("CYBER".to_string()), None, Some("EUROPE".to_string())],
        identifier: "ORG-CYBER-2024-0001".to_string(),
        authorization_reference: Some("REF-1".to_string()),
        releasable_to_countries: Some(vec![Some("CAN".to_string()), Some("USA".to_string())]),
        releasable_to_organizations: None,
        releasable_to_categories: Some(vec![]),
        disclosure_category: None,
        handling_restrictions: Some(vec![None, Some("NOFORN".to_string())]),
        handling_authority: Some("HA".to_string()),
        no_handling_restrictions: Some(false),
    }
}

#[test]
fn nations_in_form_order() {
    let mut f = blank_form("x");
    assert!(f.target_nations().is_empty());
    f.usa = Some("on".to_string());
    f.alb = Some("on".to_string());
    f.can = Some("".to_string());
    f.nzl = Some("on".to_string());
    assert_eq!(f.target_nations(), vec!["ALB", "CAN", "NZL", "USA"]);
}

#[test]
fn every_nation_box_has_its_code() {
    let mut f = blank_form("x");
    f.alb = Some("on".into()); f.aus = Some("on".into()); f.bel = Some("on".into()); f.bgr = Some("on".into());
    f.can = Some("on".into()); f.hrv = Some("on".into()); f.cze = Some("on".into()); f.dnk = Some("on".into());
    f.est = Some("on".into()); f.fin = Some("on".into()); f.fra = Some("on".into()); f.deu = Some("on".into());
    f.grc = Some("on".into()); f.hun = Some("on".into()); f.isl = Some("on".into()); f.ita = Some("on".into());
    f.lva = Some("on".into()); f.ltu = Some("on".into()); f.lux = Some("on".into()); f.mne = Some("on".into());
    f.nld = Some("on".into()); f.nzl = Some("on".into()); f.mkd = Some("on".into()); f.nor = Some("on".into());
    f.pol = Some("on".into()); f.prt = Some("on".into()); f.rou = Some("on".into()); f.svk = Some("on".into());
    f.svn = Some("on".into()); f.esp = Some("on".into()); f.swe = Some("on".into()); f.tur = Some("on".into());
    f.gbr = Some("on".into()); f.usa = Some("on".into());
    assert_eq!(
        f.target_nations(),
        vec!["ALB", "AUS", "BEL", "BGR", "CAN", "HRV", "CZE", "DNK", "EST", "FIN", "FRA", "DEU", "GRC",
             "HUN", "ISL", "ITA", "LVA", "LTU", "LUX", "MNE", "NLD", "NZL", "MKD", "NOR", "POL", "PRT",
             "ROU", "SVK", "SVN", "ESP", "SWE", "TUR", "GBR", "USA"]
    );
}

#[test]
fn organizations_and_restrictions() {
    let mut f = blank_form("x");
    f.quad = Some("on".into());
    f.nato = Some("on".into());
    f.fvey = Some("on".into());
    assert_eq!(f.releasable_organizations(), vec!["NATO", "FVEY", "QUAD"]);
    f.orcon = Some("on".into());
    f.cui = Some("on".into());
    f.noforn = Some("on".into());
    assert_eq!(f.handling_restrictions(), vec!["CUI", "NOFORN", "ORCON"]);
    let mut all = blank_form("x");
    all.eu = Some("1".into()); all.un = Some("1".into()); all.aukus = Some("1".into());
    all.fouo = Some("1".into()); all.les = Some("1".into()); all.sbu = Some("1".into()); all.propin = Some("1".into());
    assert_eq!(all.releasable_organizations(), vec!["EU", "UN", "AUKUS"]);
    assert_eq!(all.handling_restrictions(), vec!["FOUO", "LES", "SBU", "PROPIN"]);
}

#[test]
fn prompt_matches_the_documented_template() {
    let content = "This is a classified intelligence report.";
    let expected = format!(
        "Extract security metadata from this document as valid JSON.\n\n\
        Document: {}\n\n\
        Requirements:\n\
        - title: Clear descriptive title (required string)\n\
        - description: 2-sentence summary (required string)\n\
        - domain: One of INTEL, CYBER, OPERATIONS, LOGISTICS, COMMUNICATIONS, NUCLEAR, COUNTERTERRORISM, MARITIME, AEROSPACE, SPECIALOPS\n\
        - tags: Array of 3-6 classification tags (required array of strings)\n\
        - identifier: Unique ID in format ORG-DOMAIN-DATE-XXXX (required string)\n\
        - For optional arrays: use empty array [] if no values, never null\n\
        - For optional strings: use null if no value\n\n\
        Output valid JSON matching this schema:\n\
        {{\n\
          \"title\": \"string\",\n\
          \"description\": \"string\",\n\
          \"domain\": \"INTEL|CYBER|OPERATIONS|LOGISTICS|COMMUNICATIONS|NUCLEAR|COUNTERTERRORISM|MARITIME|AEROSPACE|SPECIALOPS\",\n\
          \"tags\": [\"string\"],\n\
          \"identifier\": \"string\",\n\
          \"authorization_reference\": \"string or null\",\n\
          \"releasable_to_countries\": [\"string\"] or null,\n\
          \"releasable_to_organizations\": [\"string\"] or null,\n\
          \"releasable_to_categories\": [\"string\"] or null,\n\
          \"disclosure_category\": \"string or null\",\n\
          \"handling_restrictions\": [\"string\"] or null,\n\
          \"handling_authority\": \"string or null\",\n\
          \"no_handling_restrictions\": true/false or null\n\
        }}\n\n\
        Output valid JSON only:",
        content
    );
    assert_eq!(extraction_prompt(content), expected);
}

#[test]
fn authority_resolution_prefers_session() {
    assert_eq!(resolve_authority_id(Some("s1".into()), Some("f1".into())), Some("s1".to_string()));
    assert_eq!(resolve_authority_id(Some("".into()), Some("f1".into())), Some("f1".to_string()));
    assert_eq!(resolve_authority_id(None, Some("f1".into())), Some("f1".to_string()));
    assert_eq!(resolve_authority_id(None, Some("".into())), None);
    assert_eq!(resolve_authority_id(Some("".into()), None), None);
}

#[test]
fn submission_start_steps() {
    match submit_document_start("fr", &blank_form(""), Some("a".into())) {
        SubmitStart::Redirect(l) => assert_eq!(l, "/fr"),
        other => panic!("{:?}", other),
    }
    match submit_document_start("en", &blank_form("doc"), None) {
        SubmitStart::Redirect(l) => assert_eq!(l, "/en/conversion_request?error=no_authority_selected"),
        other => panic!("{:?}", other),
    }
    let mut f = blank_form("doc");
    f.selected_authority_id = Some("auth-9".into());
    match submit_document_start("en", &f, None) {
        SubmitStart::FetchAuthority(id) => assert_eq!(id, "auth-9"),
        other => panic!("{:?}", other),
    }
}

#[test]
fn submission_prompt_step() {
    let f = blank_form("doc");
    assert_eq!(submit_document_prompt("en", &f, false), Err("/en/conversion_request?error=authority_fetch_failed".to_string()));
    assert_eq!(submit_document_prompt("en", &f, true), Ok(extraction_prompt("doc")));
}

fn authority() -> AuthorityInfo {
    AuthorityInfo {
        id: "67e55044-10b1-426f-9247-bb680e5fe0c8".to_string(),
        name: "Defence".to_string(),
        nation_code: "CAN".to_string(),
    }
}

#[test]
fn request_is_assembled_from_form_authority_and_fields() {
    let mut f = blank_form("héllo");
    f.fra = Some("on".into());
    let today = Timestamp { secs: 1_700_000_000, nanos: 5 };
    let r = build_conversion_request(&f, "user-1".into(), authority(), 42, fields(), today);
    assert_eq!(r.user_id, "user-1");
    assert_eq!(r.authority_id, "67e55044-10b1-426f-9247-bb680e5fe0c8");
    assert_eq!(r.data_object.title, "Report");
    assert_eq!(r.data_object.description, "Two sentences. Here.");
    assert_eq!(r.source_nation_classification, "SECRET");
    assert_eq!(r.source_nation_code, "CAN");
    assert_eq!(r.target_nation_codes, vec!["FRA"]);
    let m: InsertableMetadata = r.metadata;
    assert_eq!(m.identifier, "ORG-CYBER-2024-0001");
    assert_eq!(m.authorization_reference_date, Some(today));
    assert_eq!(m.originator_organization_id, 42);
    assert_eq!(m.custodian_organization_id, 42);
    assert_eq!(m.format, "Markdown");
    assert_eq!(m.format_size, Some(6));
    assert_eq!(m.security_classification, "SECRET");
    assert_eq!(m.domain, Domain::CYBER);
    assert_eq!(m.tags.len(), 3);
    assert_eq!(m.handling_authority, Some("HA".to_string()));
}

#[test]
fn finish_reads_the_authority_uuid() {
    let f = blank_form("doc");
    let (r, location) = submit_document_finish("en", &f, "u".into(), authority(), fields()).unwrap();
    assert_eq!(location, "/en/validate_conversion");
    let expected = uuid::Uuid::parse_str("67e55044-10b1-426f-9247-bb680e5fe0c8").unwrap().as_u128();
    assert_eq!(r.metadata.originator_organization_id, expected);
    assert_eq!(r.metadata.custodian_organization_id, expected);
    assert!(r.metadata.authorization_reference_date.is_some());
    let mut bad = authority();
    bad.id = "not-a-uuid".into();
    assert!(submit_document_finish("en", &f, "u".into(), bad, fields()).is_none());
}

#[test]
fn lists_shown_on_the_validation_page() {
    assert_eq!(join_present(&vec![Some("A".into()), None, Some("B".into())]), "A, B");
    assert_eq!(join_optional_list(&None), "");
    let f = blank_form("doc");
    let r = build_conversion_request(&f, "u".into(), authority(), 1, fields(), Timestamp { secs: 0, nanos: 0 });
    let lists = validation_lists(&r.metadata);
    assert_eq!(lists.tags, "CYBER, EUROPE");
    assert_eq!(lists.releasable_to_countries, "CAN, USA");
    assert_eq!(lists.releasable_to_organizations, "");
    assert_eq!(lists.releasable_to_categories, "");
    assert_eq!(lists.handling_restrictions, "NOFORN");
}

fn validation_form(tags: &str, nations: &str) -> ValidationForm {
    ValidationForm {
        title: "T".into(), description: "D".into(), identifier: "I".into(), domain: "CYBER".into(),
        tags: tags.into(), authorization_reference: None, disclosure_category: None, handling_authority: None,
        releasable_to_countries: "".into(), releasable_to_organizations: "".into(),
        releasable_to_categories: "".into(), handling_restrictions: "".into(), no_handling_restrictions: None,
        user_id: "u".into(), authority_id: "a".into(), source_nation_classification: "S".into(),
        source_nation_code: "CAN".into(), target_nation_codes: nations.into(), format: "Markdown".into(),
        format_size: Some(3), security_classification: "S".into(), originator_organization_id: "o".into(),
        custodian_organization_id: "c".into(), authorization_reference_date: None,
    }
}

#[test]
fn confirmed_form_becomes_conversion_input() {
    let input = conversion_input(&validation_form(" CYBER , EUROPE,, ", "FRA, USA"));
    assert_eq!(input.authority_id, "a");
    assert_eq!(input.data_object_title, "T");
    assert_eq!(input.data_object_description, "D");
    assert_eq!(input.metadata_domain, "CYBER");
    assert_eq!(input.metadata_tags, vec!["CYBER", "EUROPE"]);
    assert_eq!(input.source_nation_code, "CAN");
    assert_eq!(input.target_nation_codes, vec!["FRA", "USA"]);
}

#[test]
fn shown_tags_come_back_when_confirmed() {
    let f = blank_form("doc");
    let r = build_conversion_request(&f, "u".into(), authority(), 1, fields(), Timestamp { secs: 0, nanos: 0 });
    let lists = validation_lists(&r.metadata);
    let input = conversion_input(&validation_form(&lists.tags, &r.target_nation_codes.join(", ")));
    assert_eq!(input.metadata_tags, vec!["CYBER", "EUROPE"]);
}

#[test]
fn domain_names() {
    let all = [Domain::INTEL, Domain::CYBER, Domain::OPERATIONS, Domain::LOGISTICS, Domain::COMMUNICATIONS,
               Domain::NUCLEAR, Domain::COUNTERTERRORISM, Domain::MARITIME, Domain::AEROSPACE, Domain::SPECIALOPS];
    let names: Vec<&str> = all.iter().map(|d| d.name()).collect();
    assert_eq!(names, vec!["INTEL", "CYBER", "OPERATIONS", "LOGISTICS", "COMMUNICATIONS", "NUCLEAR",
                           "COUNTERTERRORISM", "MARITIME", "AEROSPACE", "SPECIALOPS"]);
}

#[test]
fn selected_nations_survive_validation() {
    let mut f = blank_form("doc");
    f.mkd = Some("on".into());
    f.bel = Some("on".into());
    f.usa = Some("on".into());
    let nations = f.target_nations();
    let shown = nations.join(", ");
    let input = conversion_input(&validation_form("t", &shown));
    assert_eq!(input.target_nation_codes, nations);
    assert_eq!(input.target_nation_codes, vec!["BEL", "MKD", "USA"]);
}

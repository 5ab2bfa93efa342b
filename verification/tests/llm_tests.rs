use frontend::llm::{
    ollama_extraction_prompt, resolve_model, select_provider, vertex_extraction_prompt,
    vertex_reply_content, GeminiApiError, GeminiProvider, GeminiReply, LlmClient, LlmError,
    LlmProvider, OllamaExtractionSettings, OllamaProvider, ProviderKind, VertexSettings,
};

#[test]
fn errors_display_their_kind() {
    assert_eq!(LlmError::GenerationError("x".into()).to_string(), "Generation error: x");
    assert_eq!(LlmError::ConnectionError("y".into()).to_string(), "Connection error: y");
    assert_eq!(LlmError::ParseError("z".into()).to_string(), "Parse error: z");
    assert_eq!(LlmError::ConfigError("w".into()).to_string(), "Configuration error: w");
}

#[test]
fn ollama_from_environment() {
    let p = OllamaProvider::from_env(None, None, None).unwrap();
    assert_eq!(p.host, "http://ollama-service.security-converter.svc.cluster.local");
    assert_eq!(p.port, 8000);
    assert_eq!(p.default_model(), "llama3:8b");
    assert_eq!(p.provider_name(), "Ollama");
    let p = OllamaProvider::from_env(Some("http://h".into()), Some("11434".into()), Some("mistral:7b".into())).unwrap();
    assert_eq!((p.host.as_str(), p.port, p.default_model.as_str()), ("http://h", 11434, "mistral:7b"));
    match OllamaProvider::from_env(None, Some("70000".into()), None) {
        Err(LlmError::ConfigError(m)) => assert_eq!(m, format!("Invalid OLLAMA_PORT: {}", "70000".parse::<u16>().unwrap_err())),
        other => panic!("{:?}", other),
    }
    match OllamaProvider::from_env(None, Some("eighty".into()), None) {
        Err(LlmError::ConfigError(m)) => assert_eq!(m, "Invalid OLLAMA_PORT: invalid digit found in string"),
        other => panic!("{:?}", other),
    }
}

#[test]
fn gemini_from_environment_and_url() {
    match GeminiProvider::from_env(None, None) {
        Err(LlmError::ConfigError(m)) => assert_eq!(m, "GEMINI_API_KEY environment variable not set"),
        other => panic!("{:?}", other),
    }
    let p = GeminiProvider::from_env(Some("KEY".into()), None).unwrap();
    assert_eq!(p.default_model(), "gemini-1.5-flash");
    assert_eq!(p.provider_name(), "Gemini");
    assert_eq!(
        p.build_url("gemini-1.5-pro"),
        "https://generativelanguage.googleapis.com/v1beta/models/gemini-1.5-pro:generateContent?key=KEY"
    );
}

#[test]
fn client_names_its_provider() {
    let o = LlmClient::Ollama(OllamaProvider::new("h".into(), 1, "m1".into()));
    let g = LlmClient::Gemini(GeminiProvider::new("k".into(), "m2".into()));
    assert_eq!(o.provider_name(), "Ollama");
    assert_eq!(g.provider_name(), "Gemini");
}

#[test]
fn model_resolution() {
    assert_eq!(resolve_model(Some("x"), "d"), "x");
    assert_eq!(resolve_model(None, "d"), "d");
}

#[test]
fn provider_selection() {
    assert_eq!(select_provider(None), ProviderKind::Ollama);
    assert_eq!(select_provider(Some("GeMiNi".into())), ProviderKind::Gemini);
    assert_eq!(select_provider(Some("openai".into())), ProviderKind::Ollama);
}

#[test]
fn gemini_replies() {
    let ok = GeminiProvider::settle_reply(
        "m".into(),
        GeminiReply::Received {
            success: true,
            status: "200 OK".into(),
            body: "{}".into(),
            api_error: None,
            candidates: Ok(vec![vec!["first".into(), "second".into()], vec!["other".into()]]),
        },
        17,
    )
    .unwrap();
    assert_eq!((ok.content.as_str(), ok.model.as_str(), ok.duration_ms), ("first", "m", Some(17)));
    match GeminiProvider::settle_reply("m".into(), GeminiReply::Received {
        success: true, status: "200 OK".into(), body: "{}".into(), api_error: None, candidates: Ok(vec![]),
    }, 1) {
        Err(LlmError::ParseError(m)) => assert_eq!(m, "No content in Gemini response"),
        other => panic!("{:?}", other),
    }
    match GeminiProvider::settle_reply("m".into(), GeminiReply::Received {
        success: true, status: "200 OK".into(), body: "junk".into(), api_error: None, candidates: Err("bad json".into()),
    }, 1) {
        Err(LlmError::ParseError(m)) => assert_eq!(m, "Failed to parse Gemini response: bad json - Response: junk"),
        other => panic!("{:?}", other),
    }
    match GeminiProvider::settle_reply("m".into(), GeminiReply::Received {
        success: false, status: "400 Bad Request".into(), body: "b".into(),
        api_error: Some(GeminiApiError { message: "bad key".into(), status: Some("INVALID_ARGUMENT".into()) }),
        candidates: Ok(vec![]),
    }, 1) {
        Err(LlmError::GenerationError(m)) => assert_eq!(m, "Gemini API error: bad key (INVALID_ARGUMENT)"),
        other => panic!("{:?}", other),
    }
    match GeminiProvider::settle_reply("m".into(), GeminiReply::Received {
        success: false, status: "400 Bad Request".into(), body: "b".into(),
        api_error: Some(GeminiApiError { message: "bad key".into(), status: None }),
        candidates: Ok(vec![]),
    }, 1) {
        Err(LlmError::GenerationError(m)) => assert_eq!(m, "Gemini API error: bad key (400 Bad Request)"),
        other => panic!("{:?}", other),
    }
    match GeminiProvider::settle_reply("m".into(), GeminiReply::Received {
        success: false, status: "500 Internal Server Error".into(), body: "oops".into(), api_error: None, candidates: Ok(vec![]),
    }, 1) {
        Err(LlmError::GenerationError(m)) => assert_eq!(m, "Gemini API error: 500 Internal Server Error - oops"),
        other => panic!("{:?}", other),
    }
    match GeminiProvider::settle_reply("m".into(), GeminiReply::Unreachable("refused".into()), 1) {
        Err(LlmError::ConnectionError(m)) => assert_eq!(m, "Failed to connect to Gemini API: refused"),
        other => panic!("{:?}", other),
    }
    match GeminiProvider::settle_reply("m".into(), GeminiReply::Unreadable("cut".into()), 1) {
        Err(LlmError::ParseError(m)) => assert_eq!(m, "Failed to read response: cut"),
        other => panic!("{:?}", other),
    }
}

#[test]
fn ollama_replies() {
    let r = OllamaProvider::settle_reply("m".into(), Ok("{\"a\":1}".into()), 9).unwrap();
    assert_eq!((r.content.as_str(), r.model.as_str(), r.duration_ms), ("{\"a\":1}", "m", Some(9)));
    match OllamaProvider::settle_reply("m".into(), Err("down".into()), 9) {
        Err(LlmError::GenerationError(m)) => assert_eq!(m, "Ollama generation failed: down"),
        other => panic!("{:?}", other),
    }
}

#[test]
fn ollama_extraction_settings() {
    let s = OllamaExtractionSettings::from_env(None, None, None, None, None);
    assert_eq!(s.endpoint, "http://10.0.0.14:11434/api/generate");
    assert_eq!(s.model, "qwen2.5:14b");
    assert_eq!(s.keep_alive, "1h");
    assert_eq!(s.num_predict, 320);
    let s = OllamaExtractionSettings::from_env(Some("http://box//".into()), Some("9".into()), Some("m".into()), Some("5m".into()), Some("640".into()));
    assert_eq!(s.endpoint, format!("{}:{}/api/generate", "http://box//".trim_end_matches('/'), "9"));
    assert_eq!((s.model.as_str(), s.keep_alive.as_str(), s.num_predict), ("m", "5m", 640));
    let s = OllamaExtractionSettings::from_env(None, None, None, None, Some("lots".into()));
    assert_eq!(s.num_predict, 320);
}

#[test]
fn ollama_extraction_prompt_matches_template() {
    let countries = vec!["CAN".to_string(), "FRA".to_string()];
    let none: Vec<String> = vec![];
    let handling = vec!["NOFORN".to_string()];
    let p = ollama_extraction_prompt("DOC", &countries, &none, &handling);
    let expected = format!(
        "Return ONLY one minified JSON object with these keys exactly: \
        title,description,domain,tags,identifier,authorization_reference,releasable_to_categories.\n\
        Constraints: domain in [INTEL,CYBER,OPERATIONS,LOGISTICS,COMMUNICATIONS,NUCLEAR,COUNTERTERRORISM,MARITIME,AEROSPACE,SPECIALOPS]. \
        tags must be 3-6 short uppercase strings. \
        identifier format ORG-DOMAIN-DATE-XXXX. \
        If unknown, use null for nullable fields and [] for list fields.\n\
        Operator constraints (high priority):\n\
        selected_countries={}\n\
        selected_organizations={}\n\
        selected_handling_restrictions={}\n\
        These lists are operator-selected controls handled by the web form; do not invent alternatives.\n\
        Document:\n{}",
        serde_json::to_string(&countries).unwrap(),
        "[]",
        serde_json::to_string(&handling).unwrap(),
        "DOC"
    );
    assert_eq!(p, expected);
    assert!(p.contains("selected_countries=[\"CAN\",\"FRA\"]"));
}

#[test]
fn vertex_settings_and_prompt() {
    let v = VertexSettings::from_env("proj".into(), None, None);
    assert_eq!(v.location, "northamerica-northeast1");
    assert_eq!(v.model, "gemini-1.5-flash");
    assert_eq!(
        v.endpoint(),
        "https://northamerica-northeast1-aiplatform.googleapis.com/v1/projects/proj/locations/northamerica-northeast1/publishers/google/models/gemini-1.5-flash:generateContent"
    );
    let doc = "Body";
    let expected = format!(
        "Extract security classification metadata from this document as valid JSON.\n\n\
        Document:\n{}\n\n\
        Requirements:\n\
        - title: Clear descriptive title (required string)\n\
        - description: 2-sentence summary (required string)\n\
        - domain: One of INTEL, CYBER, OPERATIONS, LOGISTICS, COMMUNICATIONS, \
          NUCLEAR, COUNTERTERRORISM, MARITIME, AEROSPACE, SPECIALOPS\n\
        - tags: Array of 3-6 classification tags (required, array of strings)\n\
        - identifier: Unique ID in format ORG-DOMAIN-DATE-XXXX (required string)\n\
        - authorization_reference: Reference authority document (string or null)\n\
        - releasable_to_countries: Array of ISO 3-letter country codes or empty array\n\
        - releasable_to_organizations: Array from (NATO, EU, UN, FVEY, AUKUS, QUAD) or empty array\n\
        - releasable_to_categories: Array of strings or empty array\n\
        - disclosure_category: String or null\n\
        - handling_restrictions: Array from (CUI, FOUO, LES, SBU, NOFORN, PROPIN, ORCON) or empty array\n\
        - handling_authority: String or null\n\
        - no_handling_restrictions: Boolean or null\n\n\
        Output ONLY valid JSON. No explanation. No markdown fences.",
        doc
    );
    assert_eq!(vertex_extraction_prompt(doc), expected);
    assert_eq!(vertex_reply_content(None), "{}");
    assert_eq!(vertex_reply_content(Some("{\"t\":1}".into())), "{\"t\":1}");
}

#[test]
fn ollama_prompt_from_written_hints() {
    let p = frontend::llm::ollama_prompt_from_hints("D", "[\"CAN\"]", "[]", "[\"CUI\"]");
    assert!(p.starts_with("Return ONLY one minified JSON object"));
    assert!(p.contains("\nselected_countries=[\"CAN\"]\nselected_organizations=[]\nselected_handling_restrictions=[\"CUI\"]\n"));
    assert!(p.ends_with("Document:\nD"));
}

use memory_core::provider::{
    accepts, api_error_message, check_status, copy_texts, find_model, first_embedding, status_reason,
    vectors_fit, EmbeddingError, EmbeddingRequest, FastEmbedProvider, LocalModel,
    OpenAIEmbeddingProvider,
};

#[test]
fn remote_dimensions_follow_the_model_name() {
    let small = OpenAIEmbeddingProvider::new("k", "https://api.example.com/v1", "text-embedding-3-small");
    let large = OpenAIEmbeddingProvider::new("k", "https://api.example.com/v1", "text-embedding-3-large");
    let ada = OpenAIEmbeddingProvider::new("k", "https://api.example.com/v1", "text-embedding-ada-002");
    let other = OpenAIEmbeddingProvider::new("k", "https://api.example.com/v1", "something-else");
    assert_eq!(small.dimensions(), 1536);
    assert_eq!(large.dimensions(), 3072);
    assert_eq!(ada.dimensions(), 1536);
    assert_eq!(other.dimensions(), 1536);
    assert_eq!(small.id(), "openai");
    assert_eq!(large.model(), "text-embedding-3-large");
    assert_eq!(other.model(), "something-else");
}

#[test]
fn remote_request_parts() {
    let provider = OpenAIEmbeddingProvider::new("SECRET-REDACTED", "https://api.example.com/v1", "m");
    assert_eq!(provider.endpoint(), "https://api.example.com/v1/embeddings");
    assert_eq!(provider.authorization(), "Bearer SECRET-REDACTED");
}

#[test]
fn an_empty_batch_needs_no_request() {
    let provider = OpenAIEmbeddingProvider::new("k", "u", "m");
    assert!(provider.plan_batch(&[]).is_none());
    let local = FastEmbedProvider::new(None).unwrap();
    assert!(local.plan_batch(&[]).is_none());
}

#[test]
fn a_batch_is_sent_whole_and_in_order() {
    let provider = OpenAIEmbeddingProvider::new("k", "u", "text-embedding-3-small");
    let texts = vec!["one".to_string(), "two".to_string(), "".to_string(), "one".to_string()];
    let request = provider.plan_batch(&texts).unwrap();
    assert_eq!(request.model, "text-embedding-3-small");
    assert_eq!(request.input, texts);
    let local = FastEmbedProvider::new(None).unwrap();
    assert_eq!(local.plan_batch(&texts).unwrap(), texts);
    assert_eq!(copy_texts(&texts), texts);
}

#[test]
fn only_2xx_answers_are_accepted() {
    for status in [200u16, 201, 204, 299] {
        assert!(check_status(status, "ok".to_string()).is_ok());
        assert!(accepts(status));
    }
    for status in 0u16..=1000 {
        assert_eq!(accepts(status), (200..300).contains(&status));
    }
    for status in [0u16, 100, 199, 300, 301, 400, 401, 404, 429, 500, 503, u16::MAX] {
        match check_status(status, "quota exceeded".to_string()) {
            Err(EmbeddingError::Api { status: s, body }) => {
                assert_eq!(s, status);
                assert_eq!(body, "quota exceeded");
            }
            other => panic!("status {} gave {:?}", status, other),
        }
    }
}

#[test]
fn error_messages() {
    let refused = check_status(429, "slow down".to_string()).unwrap_err();
    assert_eq!(
        refused.message(),
        "OpenAI API error 429 Too Many Requests: slow down"
    );
    let missing = check_status(404, "{\"error\":\"no such model\"}".to_string()).unwrap_err();
    assert_eq!(
        missing.message(),
        "OpenAI API error 404 Not Found: {\"error\":\"no such model\"}"
    );
    assert_eq!(
        missing.message(),
        format!(
            "OpenAI API error {}: {}",
            reqwest::StatusCode::NOT_FOUND,
            "{\"error\":\"no such model\"}"
        )
    );
    let round = check_status(500, "x".to_string()).unwrap_err();
    assert_eq!(round.message(), "OpenAI API error 500 Internal Server Error: x");
    let unnamed = check_status(599, "x".to_string()).unwrap_err();
    assert_eq!(unnamed.message(), "OpenAI API error 599 <unknown status code>: x");
    let zero = check_status(0, String::new()).unwrap_err();
    assert_eq!(zero.message(), "OpenAI API error 0 <unknown status code>: ");
    let big = check_status(65535, "x".to_string()).unwrap_err();
    assert_eq!(big.message(), "OpenAI API error 65535 <unknown status code>: x");
    assert_eq!(EmbeddingError::NoEmbedding.message(), "No embedding returned");
}

#[test]
fn the_first_vector_answers_a_single_text() {
    assert_eq!(first_embedding(vec![vec![0.6f32, 0.8], vec![1.0, 0.0]]).unwrap(), vec![0.6f32, 0.8]);
    assert_eq!(first_embedding(vec![7u8]).unwrap(), 7);
    match first_embedding(Vec::<Vec<f32>>::new()) {
        Err(EmbeddingError::NoEmbedding) => {}
        other => panic!("an empty answer gave {:?}", other),
    }
}

#[test]
fn local_models_by_name() {
    let cases = [
        ("all-MiniLM-L6-v2", LocalModel::AllMiniLML6V2, 384usize),
        ("bge-base-en-v1.5", LocalModel::BGEBaseENV15, 768),
        ("bge-small-zh-v1.5", LocalModel::BGESmallZHV15, 512),
        ("multilingual-e5-small", LocalModel::MultilingualE5Small, 384),
        ("multilingual-e5-base", LocalModel::MultilingualE5Base, 768),
        ("bge-m3", LocalModel::BGEM3, 1024),
    ];
    for (name, model, dimensions) in cases {
        assert_eq!(find_model(name), Some(model));
        assert_eq!(model.name(), name);
        assert_eq!(model.dimensions(), dimensions);
        let provider = FastEmbedProvider::new(Some(name)).unwrap();
        assert_eq!(provider.id(), "local");
        assert_eq!(provider.kind(), model);
        assert_eq!(provider.model(), name);
        assert_eq!(provider.dimensions(), dimensions);
    }
}

#[test]
fn the_default_local_model() {
    let provider = FastEmbedProvider::new(None).unwrap();
    assert_eq!(provider.kind(), LocalModel::AllMiniLML6V2);
    assert_eq!(provider.model(), "all-MiniLM-L6-v2");
    assert_eq!(provider.dimensions(), 384);
    let direct = FastEmbedProvider::with_model(LocalModel::BGEM3);
    assert_eq!(direct.model(), "bge-m3");
    assert_eq!(direct.dimensions(), 1024);
}

#[test]
fn an_unknown_local_model_is_refused_with_the_catalog() {
    assert_eq!(find_model("ALL-MINILM-L6-V2"), None);
    assert_eq!(find_model(""), None);
    match FastEmbedProvider::new(Some("gpt-embed")) {
        Err(error) => {
            match &error {
                EmbeddingError::UnknownModel { name } => assert_eq!(name, "gpt-embed"),
                other => panic!("an unknown model gave {:?}", other),
            }
            assert_eq!(
                error.message(),
                "Unknown embedding model: 'gpt-embed'. Supported models:\n\
                 English:\n\
                   - all-MiniLM-L6-v2 (default, ~80MB)\n\
                   - bge-base-en-v1.5 (~430MB)\n\
                 Chinese:\n\
                   - bge-small-zh-v1.5 (~95MB)\n\
                 Multilingual:\n\
                   - multilingual-e5-small (~470MB)\n\
                   - multilingual-e5-base (~1.1GB, recommended for Chinese)\n\
                   - bge-m3 (~2.2GB, best quality)"
            );
        }
        Ok(_) => panic!("an unknown model was accepted"),
    }
}

#[test]
fn the_request_body_is_the_model_and_the_texts() {
    let provider = OpenAIEmbeddingProvider::new("k", "u", "text-embedding-3-small");
    let one = provider.plan_batch(&["hello".to_string()]).unwrap();
    assert_eq!(
        one.to_json(),
        "{\"model\":\"text-embedding-3-small\",\"input\":[\"hello\"]}"
    );
    let texts = vec![
        "plain".to_string(),
        "with \"quotes\" and \\ and\nnewline".to_string(),
        String::new(),
        "tab\there \u{1} é ☃".to_string(),
    ];
    let request = provider.plan_batch(&texts).unwrap();
    let json = request.to_json();
    assert_eq!(
        json,
        "{\"model\":\"text-embedding-3-small\",\"input\":[\"plain\",\"with \\\"quotes\\\" and \\\\ and\\nnewline\",\"\",\"tab\\there \\u0001 é ☃\"]}"
    );
    let parsed: serde_json::Value = serde_json::from_str(&json).unwrap();
    assert_eq!(parsed["model"].as_str(), Some("text-embedding-3-small"));
    let input: Vec<&str> = parsed["input"]
        .as_array()
        .unwrap()
        .iter()
        .map(|v| v.as_str().unwrap())
        .collect();
    assert_eq!(input, texts.iter().map(|t| t.as_str()).collect::<Vec<_>>());
    let empty = EmbeddingRequest {
        model: "m".to_string(),
        input: Vec::new(),
    };
    assert_eq!(empty.to_json(), "{\"model\":\"m\",\"input\":[]}");
}

#[test]
fn vectors_are_checked_against_the_declared_dimensions() {
    assert!(vectors_fit(&Vec::<Vec<f32>>::new(), 3));
    assert!(vectors_fit(&vec![vec![0.0f32; 3], vec![1.0; 3]], 3));
    assert!(!vectors_fit(&vec![vec![0.0f32; 3], vec![1.0; 2]], 3));
    assert!(!vectors_fit(&vec![vec![0.0f32; 4]], 3));
    assert!(vectors_fit(&vec![Vec::<f32>::new()], 0));
}

#[test]
fn reason_phrases_and_the_message_built_from_them() {
    assert_eq!(status_reason(200), Some("OK"));
    assert_eq!(status_reason(401), Some("Unauthorized"));
    assert_eq!(status_reason(503), Some("Service Unavailable"));
    assert_eq!(status_reason(999), None);
    assert_eq!(status_reason(99), None);
    assert_eq!(status_reason(1000), None);
    for status in 100u16..=999 {
        let code = reqwest::StatusCode::from_u16(status).unwrap();
        assert_eq!(status_reason(status), code.canonical_reason());
        assert_eq!(
            api_error_message(status, status_reason(status), "body"),
            format!("OpenAI API error {}: body", code)
        );
    }
    assert_eq!(
        api_error_message(418, Some("I'm a teapot"), ""),
        "OpenAI API error 418 I'm a teapot: "
    );
    assert_eq!(
        api_error_message(7, None, "b"),
        "OpenAI API error 7 <unknown status code>: b"
    );
}

use dust::providers::google_vertex_ai::{
    check_piece, checked_max_tokens, merge_checked, merge_completions, resolve_max_tokens,
    tokens_of_piece, Candidate, Completion, Content, GoogleVertexAiLLM, GoogleVertexAiProvider,
    Part, UsageMetadata, VertexError, CONTEXT_SIZE,
};

fn piece(texts: &[&str], finish: Option<&str>, usage: Option<(usize, usize, usize)>) -> Completion {
    Completion {
        candidates: vec![Candidate {
            content: Content {
                role: "model".to_string(),
                parts: texts.iter().map(|t| Part { text: t.to_string() }).collect(),
            },
            finish_reason: finish.map(|f| f.to_string()),
        }],
        usage_metadata: usage.map(|(p, c, t)| UsageMetadata {
            prompt_token_count: p,
            candidates_token_count: c,
            total_token_count: t,
        }),
    }
}

#[test]
fn a_new_model_has_its_id_and_nothing_else() {
    let model = GoogleVertexAiLLM::new("gemini".to_string());
    assert_eq!(model.id(), "gemini");
    assert_eq!(model.uri, None);
    assert_eq!(model.service_account_json, None);
    assert!(!model.is_initialized());
    assert_eq!(model.context_size(), 8192);
    assert_eq!(CONTEXT_SIZE, 8192);
    assert_eq!(model.stream_uri(), None);
    let provider = GoogleVertexAiProvider::new();
    let model = provider.llm("gemini-pro".to_string());
    assert_eq!(model.id, "gemini-pro");
    assert_eq!(model.uri, None);
}

#[test]
fn a_model_takes_its_account_and_endpoint_from_the_credentials() {
    let mut model = GoogleVertexAiLLM::new("gemini".to_string());
    assert_eq!(model.initialize(None, Some("https://v".to_string())), Err(VertexError::ServiceAccountNotFound));
    assert_eq!(model.service_account_json, None);
    assert_eq!(model.uri, None);
    assert_eq!(model.initialize(Some("{}".to_string()), None), Err(VertexError::EndpointNotFound));
    assert_eq!(model.service_account_json, Some("{}".to_string()));
    assert_eq!(model.uri, None);
    assert_eq!(model.initialize(Some("{a}".to_string()), Some("https://v".to_string())), Ok(()));
    assert_eq!(model.service_account_json, Some("{a}".to_string()));
    assert_eq!(model.uri, Some("https://v".to_string()));
    assert!(model.is_initialized());
    assert_eq!(
        model.stream_uri(),
        Some("https://v/publishers/google/models/gemini:streamGenerateContent?alt=sse".to_string())
    );
}

#[test]
fn minus_one_asks_for_what_the_prompt_leaves_of_the_context() {
    assert_eq!(resolve_max_tokens(Some(-1), 192), Some(8000));
    assert_eq!(resolve_max_tokens(Some(-1), 8192), Some(0));
    assert_eq!(resolve_max_tokens(Some(-1), 0), Some(8192));
    assert_eq!(resolve_max_tokens(Some(64), 192), Some(64));
    assert_eq!(resolve_max_tokens(Some(-2), 192), Some(-2));
    assert_eq!(resolve_max_tokens(None, 192), None);
    assert_eq!(checked_max_tokens(Some(-1), 8192), Some(Some(0)));
    assert_eq!(checked_max_tokens(None, 10), Some(None));
    assert_eq!(checked_max_tokens(Some(-1), 8193), None);
    assert_eq!(checked_max_tokens(Some(5), 8193), None);
}

#[test]
fn a_piece_must_have_one_candidate_with_one_part() {
    assert_eq!(check_piece(&piece(&["a"], None, None)), Ok(()));
    assert_eq!(check_piece(&piece(&[], None, None)), Err(VertexError::UnexpectedParts(0)));
    assert_eq!(check_piece(&piece(&["a", "b"], None, None)), Err(VertexError::UnexpectedParts(2)));
    let none = Completion { candidates: vec![], usage_metadata: None };
    assert_eq!(check_piece(&none), Err(VertexError::UnexpectedCandidates(0)));
    let mut two = piece(&["a"], None, None);
    two.candidates.push(Candidate {
        content: Content { role: "model".to_string(), parts: vec![] },
        finish_reason: None,
    });
    assert_eq!(check_piece(&two), Err(VertexError::UnexpectedCandidates(2)));
}

#[test]
fn empty_pieces_and_echoes_of_the_prompt_are_not_passed_on() {
    assert_eq!(tokens_of_piece(&piece(&["hello"], None, None), "prompt"), Some("hello".to_string()));
    assert_eq!(tokens_of_piece(&piece(&[""], None, None), "prompt"), None);
    assert_eq!(tokens_of_piece(&piece(&["prompt"], None, None), "prompt"), None);
    assert_eq!(tokens_of_piece(&piece(&["é"], None, None), ""), Some("é".to_string()));
}

#[test]
fn pieces_are_put_together_in_order() {
    let pieces = vec![
        piece(&["Hel"], None, None),
        piece(&["lo"], Some("MAX"), Some((1, 2, 3))),
        piece(&[" wor", "ld"], None, None),
        piece(&["!"], Some("STOP"), None),
        piece(&[], None, Some((4, 5, 9))),
        piece(&[""], None, None),
    ];
    let merged = merge_completions(&pieces);
    assert_eq!(merged.candidates.len(), 1);
    assert_eq!(merged.candidates[0].content.role, "model");
    assert_eq!(merged.candidates[0].content.parts.len(), 1);
    assert_eq!(merged.candidates[0].content.parts[0].text, "Hello wor ld!");
    assert_eq!(merged.candidates[0].finish_reason, Some("STOP".to_string()));
    assert_eq!(
        merged.usage_metadata,
        Some(UsageMetadata { prompt_token_count: 4, candidates_token_count: 5, total_token_count: 9 })
    );
}

#[test]
fn no_pieces_give_an_empty_answer_with_no_usage() {
    let merged = merge_completions(&vec![]);
    assert_eq!(merged.candidates.len(), 1);
    assert_eq!(merged.candidates[0].content.role, "model");
    assert_eq!(merged.candidates[0].content.parts[0].text, "");
    assert_eq!(merged.candidates[0].finish_reason, None);
    assert_eq!(
        merged.usage_metadata,
        Some(UsageMetadata { prompt_token_count: 0, candidates_token_count: 0, total_token_count: 0 })
    );
}

#[test]
fn pieces_without_a_candidate_cannot_be_put_together() {
    let pieces = vec![
        piece(&["a"], None, None),
        Completion { candidates: vec![], usage_metadata: None },
    ];
    assert!(merge_checked(&pieces).is_none());
    let merged = merge_checked(&vec![piece(&["a"], None, None), piece(&["b"], None, None)]).unwrap();
    assert_eq!(merged.candidates[0].content.parts[0].text, "ab");
}

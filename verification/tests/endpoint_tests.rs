use llm_gateway::endpoint::Provider;
use llm_gateway::endpoint::WireApi;
use llm_gateway::endpoint::batch_events;
use llm_gateway::model::ApiError;
use llm_gateway::model::ContentItem;
use llm_gateway::model::ResponseEvent;
use llm_gateway::model::ResponseItem;
use llm_gateway::retry::RetryConfig;
use llm_gateway::sse::GeminiCandidate;
use llm_gateway::sse::GeminiChunk;
use llm_gateway::sse::GeminiChunkPart;
use llm_gateway::sse::GeminiUsage;

fn provider() -> Provider {
    Provider {
        name: "gemini".to_string(),
        base_url: "https://generativelanguage.googleapis.com/v1beta".to_string(),
        query_params: None,
        wire: WireApi::Gemini,
        model_name: Some("gemini-pro".to_string()),
        headers: Vec::new(),
        retry: RetryConfig {
            max_attempts: 1,
            base_delay_ms: 10,
            retry_429: false,
            retry_5xx: true,
            retry_transport: true,
        },
        stream_idle_timeout_ms: 30_000,
    }
}

#[test]
fn constructs_gemini_url() {
    let p = provider();
    let url = p.gemini_url_for_model("gemini-pro");
    assert_eq!(
        url,
        "https://generativelanguage.googleapis.com/v1beta/models/gemini-pro:generateContent"
    );
}

#[test]
fn constructs_gemini_url_with_custom_base() {
    let mut p = provider();
    p.base_url = "https://ai-gateway.example.com/google/v1beta1/publishers/google".to_string();
    let url = p.gemini_url_for_model("gemini-3-pro-preview");
    assert_eq!(
        url,
        "https://ai-gateway.example.com/google/v1beta1/publishers/google/models/gemini-3-pro-preview:generateContent"
    );
}

#[test]
fn merges_headers_and_forces_json_content_type() {
    let mut p = provider();
    p.headers = vec![("x-default".to_string(), "1".to_string())];
    let extra = vec![("x-extra".to_string(), "2".to_string())];
    let merged = p.merged_request_headers(&extra);
    assert_eq!(
        merged,
        vec![
            ("x-default".to_string(), "1".to_string()),
            ("x-extra".to_string(), "2".to_string()),
            ("content-type".to_string(), "application/json".to_string()),
        ]
    );
}

#[test]
fn batch_replay_emits_deltas_aggregated_message_and_completed() {
    let resp = GeminiChunk {
        candidates: vec![GeminiCandidate {
            parts: vec![
                GeminiChunkPart { text: Some("Hello, ".to_string()), function_call: None },
                GeminiChunkPart { text: Some("world!".to_string()), function_call: None },
            ],
            finish_reason: Some("STOP".to_string()),
        }],
        usage_metadata: Some(GeminiUsage {
            prompt_token_count: Some(10),
            candidates_token_count: Some(5),
            total_token_count: Some(15),
        }),
    };

    let events = batch_events(&resp);
    let events: Vec<ResponseEvent> =
        events.into_iter().map(|e| e.expect("stream error")).collect();

    assert!(matches!(&events[0], ResponseEvent::OutputTextDelta(t) if t == "Hello, "));
    assert!(matches!(&events[1], ResponseEvent::OutputTextDelta(t) if t == "world!"));
    match &events[2] {
        ResponseEvent::OutputItemDone(ResponseItem::Message { role, content, .. }) => {
            assert_eq!(role, "assistant");
            assert_eq!(
                content,
                &vec![ContentItem::OutputText { text: "Hello, world!".to_string() }]
            );
        }
        other => panic!("expected the aggregated message, got {:?}", other),
    }
    assert!(matches!(
        &events[3],
        ResponseEvent::Completed { token_usage: Some(u), .. }
        if u.input_tokens == 10 && u.output_tokens == 5 && u.total_tokens == 15
    ));
    assert_eq!(events.len(), 4);
}

#[test]
fn batch_replay_max_tokens_yields_error_and_no_completed() {
    let resp = GeminiChunk {
        candidates: vec![GeminiCandidate {
            parts: vec![GeminiChunkPart {
                text: Some("partial".to_string()),
                function_call: None,
            }],
            finish_reason: Some("MAX_TOKENS".to_string()),
        }],
        usage_metadata: None,
    };

    let events = batch_events(&resp);

    assert!(matches!(events.last(), Some(Err(ApiError::ContextWindowExceeded))));
    assert!(!events.iter().any(|e| matches!(e, Ok(ResponseEvent::Completed { .. }))));
}

#[test]
fn batch_replay_without_candidates_still_completes_once() {
    let resp = GeminiChunk { candidates: Vec::new(), usage_metadata: None };
    let events = batch_events(&resp);
    assert_eq!(events.len(), 1);
    assert!(matches!(
        &events[0],
        Ok(ResponseEvent::Completed { token_usage: None, .. })
    ));
}

use llm_gateway::model::ApiError;
use llm_gateway::model::ContentItem;
use llm_gateway::model::ResponseEvent;
use llm_gateway::model::ResponseItem;
use llm_gateway::sse::GeminiCandidate;
use llm_gateway::sse::GeminiChunk;
use llm_gateway::sse::GeminiChunkPart;
use llm_gateway::sse::GeminiFunctionCallChunk;
use llm_gateway::sse::GeminiUsage;
use llm_gateway::sse::StreamEvent;
use llm_gateway::sse::run_stream;

fn text_part(text: &str) -> GeminiChunkPart {
    GeminiChunkPart { text: Some(text.to_string()), function_call: None }
}

fn text_chunk(texts: &[&str]) -> GeminiChunk {
    GeminiChunk {
        candidates: vec![GeminiCandidate {
            parts: texts.iter().map(|t| text_part(t)).collect(),
            finish_reason: None,
        }],
        usage_metadata: None,
    }
}

#[test]
fn parses_text_response() {
    let chunk1 = text_chunk(&["Hello, "]);
    let chunk2 = GeminiChunk {
        candidates: vec![GeminiCandidate {
            parts: vec![text_part("world!")],
            finish_reason: Some("STOP".to_string()),
        }],
        usage_metadata: Some(GeminiUsage {
            prompt_token_count: Some(10),
            candidates_token_count: Some(5),
            total_token_count: Some(15),
        }),
    };

    let events = run_stream(vec![
        StreamEvent::Chunk(chunk1),
        StreamEvent::Chunk(chunk2),
        StreamEvent::Closed,
    ]);

    let events: Vec<ResponseEvent> =
        events.into_iter().map(|e| e.expect("stream error")).collect();

    assert!(matches!(
        &events[0],
        ResponseEvent::OutputItemAdded(ResponseItem::Message { role, .. }) if role == "assistant"
    ));
    assert!(matches!(&events[1], ResponseEvent::OutputTextDelta(t) if t == "Hello, "));
    assert!(matches!(&events[2], ResponseEvent::OutputTextDelta(t) if t == "world!"));
    assert!(matches!(
        &events[3],
        ResponseEvent::OutputItemDone(ResponseItem::Message { .. })
    ));
    assert!(matches!(
        &events[4],
        ResponseEvent::Completed { token_usage, .. }
        if token_usage.as_ref().map(|u| u.input_tokens) == Some(10)
    ));
    assert_eq!(events.len(), 5);
}

#[test]
fn parses_function_call() {
    let chunk = GeminiChunk {
        candidates: vec![GeminiCandidate {
            parts: vec![GeminiChunkPart {
                text: None,
                function_call: Some(GeminiFunctionCallChunk {
                    name: "get_weather".to_string(),
                    args_json: Some(r#"{"city":"London"}"#.to_string()),
                    thought_signature: None,
                }),
            }],
            finish_reason: Some("STOP".to_string()),
        }],
        usage_metadata: None,
    };

    let events = run_stream(vec![StreamEvent::Chunk(chunk), StreamEvent::Closed]);
    let events: Vec<ResponseEvent> =
        events.into_iter().map(|e| e.expect("stream error")).collect();

    assert!(matches!(
        &events[0],
        ResponseEvent::OutputItemDone(ResponseItem::FunctionCall { name, arguments, .. })
        if name == "get_weather" && arguments.contains("London")
    ));
    assert!(matches!(&events[1], ResponseEvent::Completed { .. }));
}

#[test]
fn handles_max_tokens_finish_reason() {
    let chunk = GeminiChunk {
        candidates: vec![GeminiCandidate {
            parts: vec![text_part("partial")],
            finish_reason: Some("MAX_TOKENS".to_string()),
        }],
        usage_metadata: None,
    };

    let events = run_stream(vec![StreamEvent::Chunk(chunk), StreamEvent::Closed]);

    let mut found_error = false;
    for ev in &events {
        if let Err(ApiError::ContextWindowExceeded) = ev {
            found_error = true;
        }
    }
    assert!(found_error, "expected ContextWindowExceeded error");
    assert!(matches!(events.last(), Some(Err(ApiError::ContextWindowExceeded))));
    assert!(!events.iter().any(|e| matches!(e, Ok(ResponseEvent::Completed { .. }))));
}

#[test]
fn safety_block_fails_stream_after_flushed_text() {
    let chunk = GeminiChunk {
        candidates: vec![GeminiCandidate {
            parts: vec![text_part("so far")],
            finish_reason: Some("SAFETY".to_string()),
        }],
        usage_metadata: None,
    };

    let events = run_stream(vec![StreamEvent::Chunk(chunk)]);

    assert!(matches!(
        events.last(),
        Some(Err(ApiError::Stream { message })) if message == "Response blocked by safety filters"
    ));
    let errors = events.iter().filter(|e| e.is_err()).count();
    assert_eq!(errors, 1);
    assert!(!events.iter().any(|e| matches!(e, Ok(ResponseEvent::Completed { .. }))));
}

#[test]
fn idle_timeout_fails_stream() {
    let events = run_stream(vec![
        StreamEvent::Chunk(text_chunk(&["hi"])),
        StreamEvent::IdleTimeout,
    ]);

    assert!(matches!(
        events.last(),
        Some(Err(ApiError::Stream { message })) if message == "idle timeout waiting for SSE"
    ));
}

#[test]
fn transport_error_fails_stream() {
    let events = run_stream(vec![StreamEvent::TransportError {
        message: "connection reset".to_string(),
    }]);

    assert_eq!(events.len(), 1);
    assert!(matches!(
        &events[0],
        Err(ApiError::Stream { message }) if message == "connection reset"
    ));
}

#[test]
fn deltas_concatenate_to_done_message_text() {
    let events = run_stream(vec![
        StreamEvent::Chunk(text_chunk(&["one ", "two "])),
        StreamEvent::Chunk(text_chunk(&["three"])),
        StreamEvent::Closed,
    ]);

    let mut deltas = String::new();
    let mut done_text: Option<String> = None;
    for ev in &events {
        match ev {
            Ok(ResponseEvent::OutputTextDelta(t)) => deltas.push_str(t),
            Ok(ResponseEvent::OutputItemDone(ResponseItem::Message { content, .. })) => {
                let mut text = String::new();
                for part in content {
                    if let ContentItem::OutputText { text: t } = part {
                        text.push_str(t);
                    }
                }
                done_text = Some(text);
            }
            _ => {}
        }
    }
    assert_eq!(done_text.as_deref(), Some("one two three"));
    assert_eq!(deltas, "one two three");
}

#[test]
fn exactly_one_completed_and_it_is_last() {
    let events = run_stream(vec![
        StreamEvent::Chunk(text_chunk(&["a"])),
        StreamEvent::Malformed,
        StreamEvent::Chunk(text_chunk(&["b"])),
        StreamEvent::Closed,
    ]);

    let completed = events
        .iter()
        .filter(|e| matches!(e, Ok(ResponseEvent::Completed { .. })))
        .count();
    assert_eq!(completed, 1);
    assert!(matches!(events.last(), Some(Ok(ResponseEvent::Completed { .. }))));
    assert!(events.iter().all(|e| e.is_ok()));
}

#[test]
fn function_call_ids_are_stream_local_and_monotonic() {
    let fc = |name: &str| GeminiChunkPart {
        text: None,
        function_call: Some(GeminiFunctionCallChunk {
            name: name.to_string(),
            args_json: None,
            thought_signature: None,
        }),
    };
    let chunk = GeminiChunk {
        candidates: vec![GeminiCandidate {
            parts: vec![fc("first"), fc("second")],
            finish_reason: None,
        }],
        usage_metadata: None,
    };

    let events = run_stream(vec![StreamEvent::Chunk(chunk), StreamEvent::Closed]);

    let ids: Vec<String> = events
        .iter()
        .filter_map(|e| match e {
            Ok(ResponseEvent::OutputItemDone(ResponseItem::FunctionCall {
                call_id,
                arguments,
                ..
            })) => {
                assert_eq!(arguments, "{}");
                Some(call_id.clone())
            }
            _ => None,
        })
        .collect();
    assert_eq!(ids, vec!["gemini_call_1".to_string(), "gemini_call_2".to_string()]);
}

#[test]
fn function_call_closes_pending_message() {
    let chunk = GeminiChunk {
        candidates: vec![GeminiCandidate {
            parts: vec![
                text_part("thinking"),
                GeminiChunkPart {
                    text: None,
                    function_call: Some(GeminiFunctionCallChunk {
                        name: "lookup".to_string(),
                        args_json: None,
                        thought_signature: None,
                    }),
                },
            ],
            finish_reason: None,
        }],
        usage_metadata: None,
    };

    let events = run_stream(vec![StreamEvent::Chunk(chunk), StreamEvent::Closed]);
    let events: Vec<ResponseEvent> =
        events.into_iter().map(|e| e.expect("stream error")).collect();

    assert!(matches!(&events[0], ResponseEvent::OutputItemAdded(_)));
    assert!(matches!(&events[1], ResponseEvent::OutputTextDelta(t) if t == "thinking"));
    assert!(matches!(
        &events[2],
        ResponseEvent::OutputItemDone(ResponseItem::Message { .. })
    ));
    assert!(matches!(
        &events[3],
        ResponseEvent::OutputItemDone(ResponseItem::FunctionCall { name, .. }) if name == "lookup"
    ));
    assert!(matches!(&events[4], ResponseEvent::Completed { .. }));
}

#[test]
fn end_of_input_synthesizes_completed_from_last_usage() {
    let chunk = GeminiChunk {
        candidates: Vec::new(),
        usage_metadata: Some(GeminiUsage {
            prompt_token_count: Some(7),
            candidates_token_count: None,
            total_token_count: Some(7),
        }),
    };

    let events = run_stream(vec![StreamEvent::Chunk(chunk), StreamEvent::Closed]);

    assert_eq!(events.len(), 1);
    assert!(matches!(
        &events[0],
        Ok(ResponseEvent::Completed { token_usage: Some(u), .. })
        if u.input_tokens == 7 && u.output_tokens == 0 && u.total_tokens == 7
    ));
}

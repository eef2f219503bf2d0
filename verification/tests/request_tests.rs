use llm_gateway::endpoint::Provider;
use llm_gateway::endpoint::WireApi;
use llm_gateway::model::ContentItem;
use llm_gateway::model::ResponseItem;
use llm_gateway::requests::GeminiFunctionResponse;
use llm_gateway::requests::GeminiPart;
use llm_gateway::requests::GeminiRequestBuilder;
use llm_gateway::requests::map_role_to_gemini;
use llm_gateway::retry::RetryConfig;

fn provider() -> Provider {
    Provider {
        name: "gemini".to_string(),
        base_url: "https://generativelanguage.googleapis.com/v1beta".to_string(),
        query_params: None,
        wire: WireApi::Gemini,
        model_name: Some("gemini-pro".to_string()),
        headers: Vec::new(),
        retry: RetryConfig {
            max_attempts: 1,
            base_delay_ms: 10,
            retry_429: false,
            retry_5xx: true,
            retry_transport: true,
        },
        stream_idle_timeout_ms: 1000,
    }
}

#[test]
fn builds_simple_user_message() {
    let input = vec![ResponseItem::Message {
        id: None,
        role: "user".to_string(),
        content: vec![ContentItem::InputText { text: "Hello".to_string() }],
    }];

    let request = GeminiRequestBuilder::new("gemini-pro", "You are helpful.", &input, &Vec::new())
        .build(&provider())
        .expect("request");

    let contents = &request.body.contents;
    assert_eq!(contents.len(), 1);
    assert_eq!(contents[0].role, "user");
    assert_eq!(contents[0].parts[0], GeminiPart::Text { text: "Hello".to_string() });
}

#[test]
fn includes_system_instruction() {
    let input = vec![ResponseItem::Message {
        id: None,
        role: "user".to_string(),
        content: vec![ContentItem::InputText { text: "Hi".to_string() }],
    }];

    let request = GeminiRequestBuilder::new("gemini-pro", "Be concise.", &input, &Vec::new())
        .build(&provider())
        .expect("request");

    let system = request.body.system_instruction.expect("systemInstruction");
    assert_eq!(system, "Be concise.");
}

#[test]
fn maps_assistant_to_model_role() {
    let input = vec![ResponseItem::Message {
        id: None,
        role: "assistant".to_string(),
        content: vec![ContentItem::OutputText { text: "I'm an AI.".to_string() }],
    }];

    let request = GeminiRequestBuilder::new("gemini-pro", "", &input, &Vec::new())
        .build(&provider())
        .expect("request");

    assert_eq!(request.body.contents[0].role, "model");
}

#[test]
fn converts_function_call() {
    let input = vec![ResponseItem::FunctionCall {
        id: None,
        name: "get_weather".to_string(),
        arguments: r#"{"city": "London"}"#.to_string(),
        call_id: "call_123".to_string(),
        thought_signature: None,
    }];

    let request = GeminiRequestBuilder::new("gemini-pro", "", &input, &Vec::new())
        .build(&provider())
        .expect("request");

    let contents = &request.body.contents;
    assert_eq!(contents[0].role, "model");
    match &contents[0].parts[0] {
        GeminiPart::FunctionCall { name, args_json } => {
            assert_eq!(name, "get_weather");
            assert!(args_json.contains("London"));
            assert_eq!(args_json, r#"{"city": "London"}"#);
        }
        other => panic!("expected a function call part, got {:?}", other),
    }
}

#[test]
fn malformed_function_call_arguments_degrade_to_empty_object() {
    let input = vec![ResponseItem::FunctionCall {
        id: None,
        name: "get_weather".to_string(),
        arguments: "not json at all {".to_string(),
        call_id: "call_1".to_string(),
        thought_signature: None,
    }];

    let request = GeminiRequestBuilder::new("gemini-pro", "", &input, &Vec::new())
        .build(&provider())
        .expect("request");

    match &request.body.contents[0].parts[0] {
        GeminiPart::FunctionCall { args_json, .. } => assert_eq!(args_json, "{}"),
        other => panic!("expected a function call part, got {:?}", other),
    }
}

#[test]
fn function_output_round_trip_recovers_name() {
    let input = vec![
        ResponseItem::FunctionCall {
            id: None,
            name: "get_weather".to_string(),
            arguments: "{}".to_string(),
            call_id: "call_123".to_string(),
            thought_signature: None,
        },
        ResponseItem::FunctionCallOutput {
            call_id: "call_123".to_string(),
            output: llm_gateway::model::FunctionCallOutputPayload {
                content: "22 degrees".to_string(),
                content_items: None,
            },
        },
    ];

    let request = GeminiRequestBuilder::new("gemini-pro", "", &input, &Vec::new())
        .build(&provider())
        .expect("request");

    let contents = &request.body.contents;
    assert_eq!(contents.len(), 2);
    assert_eq!(contents[1].role, "user");
    match &contents[1].parts[0] {
        GeminiPart::FunctionResponse { name, response } => {
            assert_eq!(name, "get_weather");
            assert_eq!(
                response,
                &GeminiFunctionResponse::Output { output: "22 degrees".to_string() }
            );
        }
        other => panic!("expected a function response part, got {:?}", other),
    }
}

#[test]
fn unknown_call_id_falls_back_to_sentinel_name() {
    let input = vec![ResponseItem::FunctionCallOutput {
        call_id: "call_999".to_string(),
        output: llm_gateway::model::FunctionCallOutputPayload {
            content: "done".to_string(),
            content_items: None,
        },
    }];

    let request = GeminiRequestBuilder::new("gemini-pro", "", &input, &Vec::new())
        .build(&provider())
        .expect("request");

    match &request.body.contents[0].parts[0] {
        GeminiPart::FunctionResponse { name, .. } => assert_eq!(name, "unknown"),
        other => panic!("expected a function response part, got {:?}", other),
    }
}

#[test]
fn role_mapping_defaults_unrecognized_roles_to_user() {
    assert_eq!(map_role_to_gemini("user"), "user");
    assert_eq!(map_role_to_gemini("assistant"), "model");
    assert_eq!(map_role_to_gemini("system"), "user");
    assert_eq!(map_role_to_gemini("tool"), "user");
    assert_eq!(map_role_to_gemini("narrator"), "user");
}

#[test]
fn data_url_image_is_split_into_mime_and_payload() {
    let input = vec![ResponseItem::Message {
        id: None,
        role: "user".to_string(),
        content: vec![ContentItem::InputImage {
            image_url: "data:image/png;base64,AAAA".to_string(),
        }],
    }];

    let request = GeminiRequestBuilder::new("gemini-pro", "", &input, &Vec::new())
        .build(&provider())
        .expect("request");

    assert_eq!(
        request.body.contents[0].parts[0],
        GeminiPart::InlineData { mime_type: "image/png".to_string(), data: "AAAA".to_string() }
    );
}

#[test]
fn remote_image_becomes_file_reference() {
    let input = vec![ResponseItem::Message {
        id: None,
        role: "user".to_string(),
        content: vec![ContentItem::InputImage {
            image_url: "https://example.com/cat.jpg".to_string(),
        }],
    }];

    let request = GeminiRequestBuilder::new("gemini-pro", "", &input, &Vec::new())
        .build(&provider())
        .expect("request");

    assert_eq!(
        request.body.contents[0].parts[0],
        GeminiPart::FileData {
            file_uri: "https://example.com/cat.jpg".to_string(),
            mime_type: "image/jpeg".to_string(),
        }
    );
}

#[test]
fn empty_text_parts_are_suppressed_and_empty_messages_dropped() {
    let input = vec![
        ResponseItem::Message {
            id: None,
            role: "user".to_string(),
            content: vec![ContentItem::InputText { text: "".to_string() }],
        },
        ResponseItem::Reasoning,
        ResponseItem::Other,
    ];

    let request = GeminiRequestBuilder::new("gemini-pro", "", &input, &Vec::new())
        .build(&provider())
        .expect("request");

    assert!(request.body.contents.is_empty());
    assert!(request.body.system_instruction.is_none());
}

#[test]
fn conversation_id_becomes_a_header() {
    let input: Vec<ResponseItem> = Vec::new();
    let request = GeminiRequestBuilder::new("gemini-pro", "", &input, &Vec::new())
        .conversation_id(Some("conv-7".to_string()))
        .build(&provider())
        .expect("request");

    assert_eq!(
        request.headers,
        vec![("conversation_id".to_string(), "conv-7".to_string())]
    );
    assert_eq!(request.model, "gemini-pro");
}

//! The chat flow: request construction, serialization, and response
//! extraction, on concrete values.

use chat_api::chat::{
    build_chat_request, chat_endpoint, chat_messages, complete_chat_from_body,
    first_choice_content, prepare_chat_call,
};
use chat_api::credentials::{load_credentials, Credentials};
use chat_api::de::parse_chat_request;
use chat_api::error::ApiError;
use chat_api::ser::chat_request_body;
use chat_api::types::{APIChoice, APIMessage, APIResponse, ChatCompletion, Message};

fn creds(key: &str, org: &str) -> Credentials {
    Credentials {
        api_key: key.to_string(),
        api_org: org.to_string(),
    }
}

#[test]
fn chat_messages_wraps_prompt_as_single_system_message() {
    let ms = chat_messages("Summarize: the sky is blue.\n");
    assert_eq!(ms.len(), 1);
    assert_eq!(ms[0].role, "system");
    assert_eq!(ms[0].content, "Summarize: the sky is blue.\n");
}

#[test]
fn build_chat_request_uses_fixed_model_and_temperature() {
    let ms = chat_messages("hi");
    let req = build_chat_request(ms);
    assert_eq!(req.model, "gpt-4o");
    assert_eq!(req.temperature_tenths, 10);
    assert_eq!(req.messages.len(), 1);
}

#[test]
fn chat_request_body_is_exact_canonical_json() {
    let req = build_chat_request(chat_messages("Summarize: the sky is blue."));
    let body = chat_request_body(&req);
    assert_eq!(
        body,
        "{\"model\":\"gpt-4o\",\"messages\":[{\"role\":\"system\",\"content\":\"Summarize: the sky is blue.\"}],\"temperature\":1.0}"
    );
}

#[test]
fn chat_request_body_escapes_special_characters() {
    let req = build_chat_request(chat_messages("a\"b\\c\nd\re\tf\u{1}g"));
    let body = chat_request_body(&req);
    assert_eq!(
        body,
        "{\"model\":\"gpt-4o\",\"messages\":[{\"role\":\"system\",\"content\":\"a\\\"b\\\\c\\nd\\re\\tf\\u0001g\"}],\"temperature\":1.0}"
    );
}

#[test]
fn chat_request_round_trips_through_its_body() {
    let mut ms = chat_messages("first \"quoted\" and \\slashed\\ line\n");
    ms.push(Message {
        role: "user".to_string(),
        content: "tab\tbell\u{7}plain".to_string(),
    });
    let req = build_chat_request(ms);
    let body = chat_request_body(&req);
    let back = parse_chat_request(&body).unwrap();
    assert_eq!(back, req);
}

#[test]
fn chat_request_with_no_messages_round_trips() {
    let req = build_chat_request(Vec::new());
    let body = chat_request_body(&req);
    assert_eq!(body, "{\"model\":\"gpt-4o\",\"messages\":[],\"temperature\":1.0}");
    let back = parse_chat_request(&body).unwrap();
    assert_eq!(back, req);
}

#[test]
fn parse_chat_request_rejects_malformed_text() {
    assert_eq!(
        parse_chat_request("{\"model\":\"gpt-4o\"}"),
        Err(ApiError::Deserialization)
    );
    assert_eq!(parse_chat_request(""), Err(ApiError::Deserialization));
}

#[test]
fn parse_chat_request_rejects_temperature_beyond_reach() {
    let body = "{\"model\":\"gpt-4o\",\"messages\":[],\"temperature\":429496729.6}";
    assert_eq!(parse_chat_request(body), Err(ApiError::Deserialization));
}

#[test]
fn parse_chat_request_accepts_general_unicode_escapes() {
    let body = "{\"model\":\"gpt-4o\",\"messages\":[{\"role\":\"user\",\"content\":\"\\u0041\\u00e9\"}],\"temperature\":0.5}";
    let req = parse_chat_request(body).unwrap();
    assert_eq!(req.messages[0].content, "A\u{e9}");
    assert_eq!(req.temperature_tenths, 5);
}

#[test]
fn complete_chat_returns_first_choice_content() {
    let body = "{\"choices\":[{\"message\":{\"content\":\"The sky is blue.\"}}]}";
    assert_eq!(
        complete_chat_from_body(body),
        Ok("The sky is blue.".to_string())
    );
}

#[test]
fn complete_chat_returns_choice_zero_among_many() {
    let body = "{\"choices\":[{\"message\":{\"content\":\"first\"}},{\"message\":{\"content\":\"second\"}},{\"message\":{\"content\":\"third\"}}]}";
    assert_eq!(complete_chat_from_body(body), Ok("first".to_string()));
}

#[test]
fn complete_chat_fails_on_zero_choices() {
    let body = "{\"choices\":[]}";
    assert_eq!(complete_chat_from_body(body), Err(ApiError::EmptyResponse));
}

#[test]
fn complete_chat_fails_on_wrong_shape() {
    assert_eq!(
        complete_chat_from_body("{\"error\":\"rate limit\"}"),
        Err(ApiError::Deserialization)
    );
    assert_eq!(
        complete_chat_from_body("not json at all"),
        Err(ApiError::Deserialization)
    );
}

#[test]
fn complete_chat_unescapes_content() {
    let body = "{\"choices\":[{\"message\":{\"content\":\"line\\none \\\"two\\\" \\u0007!\"}}]}";
    assert_eq!(
        complete_chat_from_body(body),
        Ok("line\none \"two\" \u{7}!".to_string())
    );
}

#[test]
fn complete_chat_accepts_a_realistic_response() {
    // Extra members, nesting, whitespace and newlines, as a real endpoint
    // sends them.
    let body = "{\n  \"id\": \"chatcmpl-9x\",\n  \"object\": \"chat.completion\",\n  \"created\": 1700000000,\n  \"model\": \"gpt-4o-2024-05-13\",\n  \"choices\": [\n    {\n      \"index\": 0,\n      \"message\": {\n        \"role\": \"assistant\",\n        \"content\": \"The sky is blue.\",\n        \"refusal\": null\n      },\n      \"logprobs\": null,\n      \"finish_reason\": \"stop\"\n    }\n  ],\n  \"usage\": {\n    \"prompt_tokens\": 9,\n    \"completion_tokens\": 5,\n    \"total_tokens\": 14\n  },\n  \"system_fingerprint\": \"fp_1\"\n}\n";
    assert_eq!(
        complete_chat_from_body(body),
        Ok("The sky is blue.".to_string())
    );
}

#[test]
fn complete_chat_is_free_of_member_order() {
    let body = "{\"choices\":[{\"finish_reason\":\"stop\",\"message\":{\"refusal\":null,\"content\":\"out of order\",\"role\":\"assistant\"},\"index\":0}],\"id\":\"x\"}";
    assert_eq!(complete_chat_from_body(body), Ok("out of order".to_string()));
}

#[test]
fn complete_chat_accepts_whitespace_around_zero_choices() {
    let body = " { \"choices\" : [ ] } ";
    assert_eq!(complete_chat_from_body(body), Err(ApiError::EmptyResponse));
}

#[test]
fn complete_chat_reads_full_string_escapes() {
    // Solidus, backspace, form feed, uppercase hex, and a surrogate pair.
    let body = "{\"choices\":[{\"message\":{\"content\":\"a\\/b\\bc\\fd\\u00E9e\\uD83D\\uDE00f\"}}]}";
    assert_eq!(
        complete_chat_from_body(body),
        Ok("a/b\u{8}c\u{c}d\u{e9}e\u{1F600}f".to_string())
    );
}

#[test]
fn complete_chat_rejects_duplicate_choices_member() {
    let body = "{\"choices\":[],\"choices\":[{\"message\":{\"content\":\"x\"}}]}";
    assert_eq!(complete_chat_from_body(body), Err(ApiError::Deserialization));
}

#[test]
fn complete_chat_rejects_lone_surrogate_and_trailing_text() {
    let body = "{\"choices\":[{\"message\":{\"content\":\"\\uD83D\"}}]}";
    assert_eq!(complete_chat_from_body(body), Err(ApiError::Deserialization));
    let body = "{\"choices\":[]} extra";
    assert_eq!(complete_chat_from_body(body), Err(ApiError::Deserialization));
}

#[test]
fn first_choice_content_reads_choice_zero() {
    let resp = APIResponse {
        choices: vec![
            APIChoice {
                message: APIMessage {
                    content: "alpha".to_string(),
                },
            },
            APIChoice {
                message: APIMessage {
                    content: "beta".to_string(),
                },
            },
        ],
    };
    assert_eq!(first_choice_content(&resp), Ok("alpha".to_string()));
    let empty = APIResponse { choices: Vec::new() };
    assert_eq!(first_choice_content(&empty), Err(ApiError::EmptyResponse));
}

#[test]
fn end_to_end_scenario_echoes_the_mocked_completion() {
    // The prompt file's contents become the one system message.
    let input = "Summarize: the sky is blue.";
    let messages = chat_messages(input);
    let c = creds("k", "o");
    let (config, body) = prepare_chat_call(&c, messages).unwrap();
    assert_eq!(config.auth_header, "Bearer k");
    assert_eq!(config.org_header, "o");
    assert!(body.contains("Summarize: the sky is blue."));
    assert_eq!(chat_endpoint(), "https://api.openai.com/v1/chat/completions");
    // The mocked endpoint echoes this response body back.
    let mocked = "{\"choices\":[{\"message\":{\"content\":\"The sky is blue.\"}}]}";
    let out = complete_chat_from_body(mocked).unwrap();
    let printed = format!("\n {}", out);
    assert!(printed.contains("The sky is blue."));
}

#[test]
fn missing_credentials_fail_before_any_request_is_built() {
    // A counter standing for outbound network calls: it must stay at zero
    // when a credential is missing.
    let mut network_calls = 0u32;
    let mut flow = |key: Option<String>, org: Option<String>| -> Result<String, ApiError> {
        let c = load_credentials(key, org)?;
        let (_config, _body) = prepare_chat_call(&c, chat_messages("hi"))?;
        network_calls += 1;
        Ok(String::new())
    };
    assert_eq!(flow(None, Some("org".to_string())), Err(ApiError::Configuration));
    assert_eq!(flow(Some("key".to_string()), None), Err(ApiError::Configuration));
    assert_eq!(flow(None, None), Err(ApiError::Configuration));
    assert_eq!(network_calls, 0);
}

#[test]
fn illegal_credential_fails_before_any_request_is_built() {
    let mut network_calls = 0u32;
    let mut flow = |key: &str, org: &str| -> Result<String, ApiError> {
        let c = load_credentials(Some(key.to_string()), Some(org.to_string()))?;
        let (_config, _body) = prepare_chat_call(&c, chat_messages("hi"))?;
        network_calls += 1;
        Ok(String::new())
    };
    assert_eq!(flow("bad\nkey", "org"), Err(ApiError::HeaderEncoding));
    assert_eq!(flow("key", "bad\rorg"), Err(ApiError::HeaderEncoding));
    assert_eq!(flow("good-key", "good-org"), Ok(String::new()));
    drop(flow);
    assert_eq!(network_calls, 1);
}

#[test]
fn present_credentials_load_verbatim() {
    let loaded = load_credentials(Some("the-key".to_string()), Some("the-org".to_string()))
        .unwrap();
    assert_eq!(loaded.api_key, "the-key");
    assert_eq!(loaded.api_org, "the-org");
}

#[test]
fn chat_completion_equality_follows_fields() {
    let a = ChatCompletion {
        model: "m".to_string(),
        messages: vec![Message {
            role: "user".to_string(),
            content: "x".to_string(),
        }],
        temperature_tenths: 10,
    };
    let b = a.clone();
    assert_eq!(a, b);
}

//! Header legality, the built default headers, the error descriptions, and
//! the image flow, on concrete values.

use chat_api::credentials::Credentials;
use chat_api::error::ApiError;
use chat_api::headers::{
    authorization_header_name, build_client_config, check_header_value, organization_header_name,
};
use chat_api::image::{
    build_image_request, first_data_url, image_endpoint, image_url_from_body, prepare_image_call,
};
use chat_api::ser::image_request_body;
use chat_api::types::{IMGData, IMGResponse};

fn creds(key: &str, org: &str) -> Credentials {
    Credentials {
        api_key: key.to_string(),
        api_org: org.to_string(),
    }
}

#[test]
fn header_values_allow_visible_text_and_tab() {
    assert!(check_header_value("sk-abc DEF.123_~"));
    assert!(check_header_value("tab\tinside"));
    assert!(check_header_value(""));
    assert!(check_header_value("beyond-ascii \u{e9}\u{4e2d}"));
}

#[test]
fn header_values_reject_control_characters() {
    assert!(!check_header_value("line\nfeed"));
    assert!(!check_header_value("carriage\rreturn"));
    assert!(!check_header_value("null\u{0}byte"));
    assert!(!check_header_value("delete\u{7f}char"));
}

#[test]
fn client_config_carries_bearer_and_organization() {
    let cfg = build_client_config(&creds("sk-123", "org-9")).unwrap();
    assert_eq!(cfg.auth_header, "Bearer sk-123");
    assert_eq!(cfg.org_header, "org-9");
    assert_eq!(authorization_header_name(), "authorization");
    assert_eq!(organization_header_name(), "OpenAI-Organization");
}

#[test]
fn client_config_fails_on_linefeed_in_key() {
    let r = build_client_config(&creds("sk\n123", "org"));
    assert_eq!(r.unwrap_err(), ApiError::HeaderEncoding);
    let r = build_client_config(&creds("sk123", "org\u{7f}"));
    assert_eq!(r.unwrap_err(), ApiError::HeaderEncoding);
}

#[test]
fn error_descriptions_name_each_failure() {
    assert_eq!(
        ApiError::Configuration.describe(),
        "missing required environment variable"
    );
    assert_eq!(
        ApiError::HeaderEncoding.describe(),
        "credential is not a legal header value"
    );
    assert_eq!(ApiError::Transport.describe(), "network request failed");
    assert_eq!(
        ApiError::Deserialization.describe(),
        "response body has an unexpected shape"
    );
    assert_eq!(
        ApiError::EmptyResponse.describe(),
        "response contains no results"
    );
}

#[test]
fn image_request_body_is_exact_canonical_json() {
    let req = build_image_request("a painting of a quiet harbor".to_string());
    assert_eq!(req.model, "dall-e-3");
    assert_eq!(req.n, 1);
    assert_eq!(req.size, "1024x1024");
    let body = image_request_body(&req);
    assert_eq!(
        body,
        "{\"model\":\"dall-e-3\",\"prompt\":\"a painting of a quiet harbor\",\"n\":1,\"size\":\"1024x1024\"}"
    );
}

#[test]
fn image_url_from_body_reads_first_datum() {
    let body = "{\"data\":[{\"revised_prompt\":\"a harbor\",\"url\":\"https://img.example/1\"},{\"revised_prompt\":\"b\",\"url\":\"https://img.example/2\"}]}";
    assert_eq!(
        image_url_from_body(body),
        Ok("https://img.example/1".to_string())
    );
}

#[test]
fn image_url_fails_on_zero_data() {
    assert_eq!(
        image_url_from_body("{\"data\":[]}"),
        Err(ApiError::EmptyResponse)
    );
}

#[test]
fn image_url_fails_on_wrong_shape() {
    assert_eq!(
        image_url_from_body("{\"data\":[{\"url\":\"x\"}]}"),
        Err(ApiError::Deserialization)
    );
}

#[test]
fn image_url_accepts_a_realistic_response() {
    let body = "{\n  \"created\": 1700000001,\n  \"data\": [\n    {\n      \"url\": \"https://img.example/out.png\",\n      \"revised_prompt\": \"a quiet harbor at dusk\"\n    }\n  ]\n}";
    assert_eq!(
        image_url_from_body(body),
        Ok("https://img.example/out.png".to_string())
    );
}

#[test]
fn first_data_url_reads_datum_zero() {
    let resp = IMGResponse {
        data: vec![IMGData {
            revised_prompt: "p".to_string(),
            url: "https://one".to_string(),
        }],
    };
    assert_eq!(first_data_url(&resp), Ok("https://one".to_string()));
    let empty = IMGResponse { data: Vec::new() };
    assert_eq!(first_data_url(&empty), Err(ApiError::EmptyResponse));
}

#[test]
fn prepare_image_call_builds_headers_and_body() {
    let (cfg, body) = prepare_image_call(&creds("k", "o"), "a cat".to_string()).unwrap();
    assert_eq!(cfg.auth_header, "Bearer k");
    assert_eq!(cfg.org_header, "o");
    assert_eq!(
        body,
        "{\"model\":\"dall-e-3\",\"prompt\":\"a cat\",\"n\":1,\"size\":\"1024x1024\"}"
    );
    assert_eq!(
        image_endpoint(),
        "https://api.openai.com/v1/images/generations"
    );
    let r = prepare_image_call(&creds("k\n", "o"), "a cat".to_string());
    assert_eq!(r.unwrap_err(), ApiError::HeaderEncoding);
}

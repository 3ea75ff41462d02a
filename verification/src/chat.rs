//! The chat-completion flow: building the request for a prompt, and
//! extracting the completion text from a response body.

use crate::credentials::Credentials;
use crate::de::parse_api_response_body;
use crate::error::ApiError;
use crate::headers::{bearer_of, build_client_config, legal_header_value, ClientConfig};
use crate::jsonfmt::chat_text;
use crate::jsonparse::parse_api_response;
use crate::ser::chat_request_body;
use crate::types::{msgs_view, APIResponse, ChatCompletion, ChatCompletionView, Message};
use vstd::prelude::*;

verus! {

/// The chat-completions endpoint.
pub fn chat_endpoint() -> (r: &'static str)
    ensures
        r@ == "https://api.openai.com/v1/chat/completions"@,
{
    "https://api.openai.com/v1/chat/completions"
}

/// Wraps a prompt as the single system-role message of a conversation.
pub fn chat_messages(prompt: &str) -> (r: Vec<Message>)
    ensures
        r@.len() == 1,
        r@[0].role@ == "system"@,
        r@[0].content@ == prompt@,
{
    let mut ms: Vec<Message> = Vec::new();
    ms.push(Message { role: String::from_str("system"), content: String::from_str(prompt) });
    ms
}

/// Builds the chat request around a message sequence: a fixed model
/// identifier and a fixed sampling temperature of one point zero.
pub fn build_chat_request(messages: Vec<Message>) -> (r: ChatCompletion)
    ensures
        r.model@ == "gpt-4o"@,
        r.messages == messages,
        r.temperature_tenths == 10usize as u32,
{
    ChatCompletion { model: String::from_str("gpt-4o"), messages, temperature_tenths: 10 }
}

/// Everything the caller needs to issue one request: the validated default
/// headers and the serialized body.
pub fn prepare_chat_call(creds: &Credentials, messages: Vec<Message>) -> (r: Result<
    (ClientConfig, String),
    ApiError,
>)
    ensures
        match r {
            Ok(o) => {
                &&& legal_header_value(creds.api_key@)
                &&& legal_header_value(creds.api_org@)
                &&& o.0.auth_header@ == bearer_of(creds.api_key@)
                &&& o.0.org_header@ == creds.api_org@
                &&& o.1@ == chat_text(
                    ChatCompletionView {
                        model: "gpt-4o"@,
                        messages: msgs_view(messages@),
                        temperature_tenths: 10,
                    },
                )
            },
            Err(e) => {
                &&& e == ApiError::HeaderEncoding
                &&& !(legal_header_value(creds.api_key@) && legal_header_value(creds.api_org@))
            },
        },
{
    let config = match build_client_config(creds) {
        Ok(c) => c,
        Err(e) => {
            return Err(e);
        },
    };
    let request = build_chat_request(messages);
    let body = chat_request_body(&request);
    Ok((config, body))
}

/// The content of the first choice of a response.
///
/// Succeeds exactly when the response holds at least one choice, and then
/// yields the content of choice zero, whatever else the response holds; an
/// empty choice sequence is an empty-response error.
pub fn first_choice_content(resp: &APIResponse) -> (r: Result<String, ApiError>)
    ensures
        match r {
            Ok(t) => resp@.choices.len() >= 1 && t@ == resp@.choices[0].message.content,
            Err(e) => e == ApiError::EmptyResponse && resp@.choices.len() == 0,
        },
{
    if resp.choices.len() == 0 {
        return Err(ApiError::EmptyResponse);
    }
    Ok(resp.choices[0].message.content.clone())
}

/// The completion text carried by a chat-response body.
///
/// Parses the body and returns the content of the first choice: a body of
/// the wrong shape is a deserialization error, and a well-formed body with
/// no choices is an empty-response error.
pub fn complete_chat_from_body(body: &str) -> (r: Result<String, ApiError>)
    ensures
        match parse_api_response(body@) {
            Some(v) => if v.choices.len() >= 1 {
                r matches Ok(t) && t@ == v.choices[0].message.content
            } else {
                r == Err::<String, ApiError>(ApiError::EmptyResponse)
            },
            None => r == Err::<String, ApiError>(ApiError::Deserialization),
        },
{
    let resp = match parse_api_response_body(body) {
        Ok(resp) => resp,
        Err(e) => {
            return Err(e);
        },
    };
    first_choice_content(&resp)
}

} // verus!

//! The image-generation flow: building the request for a prompt, and
//! extracting the first result's URL from a response body.

use crate::credentials::Credentials;
use crate::de::parse_img_response_body;
use crate::error::ApiError;
use crate::headers::{bearer_of, build_client_config, legal_header_value, ClientConfig};
use crate::jsonfmt::image_text;
use crate::jsonparse::parse_img_response;
use crate::ser::image_request_body;
use crate::types::{IMGResponse, ImgaeGen, ImgaeGenView};
use vstd::prelude::*;

verus! {

/// The image-generations endpoint.
pub fn image_endpoint() -> (r: &'static str)
    ensures
        r@ == "https://api.openai.com/v1/images/generations"@,
{
    "https://api.openai.com/v1/images/generations"
}

/// Builds the image request around a prompt: a fixed model identifier, one
/// image, and a fixed size.
pub fn build_image_request(prompt: String) -> (r: ImgaeGen)
    ensures
        r.model@ == "dall-e-3"@,
        r.prompt == prompt,
        r.n == 1usize as u32,
        r.size@ == "1024x1024"@,
{
    ImgaeGen {
        model: String::from_str("dall-e-3"),
        prompt,
        n: 1,
        size: String::from_str("1024x1024"),
    }
}

/// Everything the caller needs to issue one request: the validated default
/// headers and the serialized body.
pub fn prepare_image_call(creds: &Credentials, prompt: String) -> (r: Result<
    (ClientConfig, String),
    ApiError,
>)
    ensures
        match r {
            Ok(o) => {
                &&& legal_header_value(creds.api_key@)
                &&& legal_header_value(creds.api_org@)
                &&& o.0.auth_header@ == bearer_of(creds.api_key@)
                &&& o.0.org_header@ == creds.api_org@
                &&& o.1@ == image_text(
                    ImgaeGenView {
                        model: "dall-e-3"@,
                        prompt: prompt@,
                        n: 1,
                        size: "1024x1024"@,
                    },
                )
            },
            Err(e) => {
                &&& e == ApiError::HeaderEncoding
                &&& !(legal_header_value(creds.api_key@) && legal_header_value(creds.api_org@))
            },
        },
{
    let config = match build_client_config(creds) {
        Ok(c) => c,
        Err(e) => {
            return Err(e);
        },
    };
    let request = build_image_request(prompt);
    let body = image_request_body(&request);
    Ok((config, body))
}

/// The URL of the first result of a response.
///
/// Succeeds exactly when the response holds at least one result, and then
/// yields the URL of result zero, whatever else the response holds; an empty
/// result sequence is an empty-response error.
pub fn first_data_url(resp: &IMGResponse) -> (r: Result<String, ApiError>)
    ensures
        match r {
            Ok(t) => resp@.data.len() >= 1 && t@ == resp@.data[0].url,
            Err(e) => e == ApiError::EmptyResponse && resp@.data.len() == 0,
        },
{
    if resp.data.len() == 0 {
        return Err(ApiError::EmptyResponse);
    }
    Ok(resp.data[0].url.clone())
}

/// The image URL carried by an image-response body.
///
/// Parses the body and returns the URL of the first result: a body of the
/// wrong shape is a deserialization error, and a well-formed body with no
/// results is an empty-response error.
pub fn image_url_from_body(body: &str) -> (r: Result<String, ApiError>)
    ensures
        match parse_img_response(body@) {
            Some(v) => if v.data.len() >= 1 {
                r matches Ok(t) && t@ == v.data[0].url
            } else {
                r == Err::<String, ApiError>(ApiError::EmptyResponse)
            },
            None => r == Err::<String, ApiError>(ApiError::Deserialization),
        },
{
    let resp = match parse_img_response_body(body) {
        Ok(resp) => resp,
        Err(e) => {
            return Err(e);
        },
    };
    first_data_url(&resp)
}

} // verus!

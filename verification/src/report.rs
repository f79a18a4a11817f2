//! The exchange with the text-generation service: the request built from a
//! run's output, and the report read from the service's answer.

use vstd::prelude::*;

use crate::compress::{compressed, default_config, rendered};
use crate::json::{
    field, item, parse_json, parsed_json, render_json, rendered_json, JsonEntry, JsonMember,
    JsonTree, JsonValue,
};
use crate::prompt::{build_prompt_string, prompt_text};

verus! {

/// What can go wrong on the way to a report.
#[derive(Debug, PartialEq, Eq)]
pub enum ReportError {
    /// No key for the service was given.
    MissingApiKey,
    /// The request did not get through; the cause as text.
    Transport(String),
    /// The service's answer is no JSON; the answer as it came.
    InvalidAnswer(String),
    /// The service's answer holds no report; the answer as it came.
    NoReport(String),
}

/// A request to the service: where it goes and the JSON text that it sends.
#[derive(Debug, PartialEq, Eq)]
pub struct ApiRequest {
    pub url: String,
    pub body: String,
}

/// The address of the service for a model and a key.
pub open spec fn request_url(model_name: Seq<char>, api_key: Seq<char>) -> Seq<char> {
    "https://generativelanguage.googleapis.com/v1beta/models/"@ + model_name
        + ":generateContent?key="@ + api_key
}

/// The object with the single member `key`.
pub open spec fn single(key: Seq<char>, value: JsonTree) -> JsonTree {
    JsonTree::Object(seq![JsonMember { key, value }])
}

/// The JSON tree that carries a prompt to the service.
pub open spec fn request_tree(prompt: Seq<char>) -> JsonTree {
    single(
        "contents"@,
        JsonTree::Array(
            seq![
                single(
                    "parts"@,
                    JsonTree::Array(seq![single("text"@, JsonTree::String(prompt))]),
                ),
            ],
        ),
    )
}

/// The report in an answer of the service: the text of the first part of
/// the first candidate's content.
pub open spec fn report_text(answer: JsonTree) -> Option<Seq<char>> {
    match field(
        item(field(field(item(field(answer, "candidates"@), 0), "content"@), "parts"@), 0),
        "text"@,
    ) {
        JsonTree::String(text) => Some(text),
        _ => None,
    }
}

/// The message that stands for an error where it is reported as text.
pub open spec fn report_error_message(e: ReportError) -> Seq<char> {
    match e {
        ReportError::MissingApiKey => "APIキーが設定されていません。"@,
        ReportError::Transport(cause) => cause@,
        ReportError::InvalidAnswer(answer) => "Google API returned invalid JSON: "@ + answer@,
        ReportError::NoReport(answer) => "API Error: "@ + answer@,
    }
}

impl ReportError {
    /// The error as the text that is reported for it.
    pub fn message(&self) -> (text: String)
        ensures
            text@ == report_error_message(*self),
    {
        match self {
            ReportError::MissingApiKey => String::from_str("APIキーが設定されていません。"),
            ReportError::Transport(cause) => cause.clone(),
            ReportError::InvalidAnswer(answer) => {
                let mut text = String::from_str("Google API returned invalid JSON: ");
                text.append(answer.as_str());
                text
            },
            ReportError::NoReport(answer) => {
                let mut text = String::from_str("API Error: ");
                text.append(answer.as_str());
                text
            },
        }
    }
}

fn single_member(key: &str, value: JsonValue) -> (out: JsonValue)
    ensures
        out@ == single(key@, value@),
{
    let mut entries: Vec<JsonEntry> = Vec::new();
    entries.push(JsonEntry { key: String::from_str(key), value });
    let out = JsonValue::Object(entries);
    assert(out@->Object_0 =~= seq![JsonMember { key: key@, value: value@ }]);
    out
}

fn single_item(value: JsonValue) -> (out: JsonValue)
    ensures
        out@ == JsonTree::Array(seq![value@]),
{
    let mut items: Vec<JsonValue> = Vec::new();
    items.push(value);
    let out = JsonValue::Array(items);
    assert(out@->Array_0 =~= seq![value@]);
    out
}

/// The JSON value that carries `prompt` to the service.
pub fn request_body(prompt: String) -> (body: JsonValue)
    ensures
        body@ == request_tree(prompt@),
{
    let text = single_member("text", JsonValue::String(prompt));
    let parts = single_member("parts", single_item(text));
    single_member("contents", single_item(parts))
}

/// Builds the request for a report on the captured output of a run. An
/// empty key is refused; else the request goes to the model's address with
/// the key, and its body carries the prompt built from the output.
pub fn prepare_request(
    log: &str,
    focus_point: &str,
    api_key: &str,
    model_name: &str,
    system_instruction: &str,
) -> (r: Result<ApiRequest, ReportError>)
    ensures
        api_key@.len() == 0 <==> r is Err,
        r matches Err(e) ==> e == ReportError::MissingApiKey,
        r matches Ok(request) ==> request.url@ == request_url(model_name@, api_key@)
            && request.body@ == rendered_json(
            request_tree(
                prompt_text(
                    system_instruction@,
                    focus_point@,
                    rendered(compressed(log@, default_config())),
                ),
            ),
        ),
{
    if api_key.is_empty() {
        return Err(ReportError::MissingApiKey);
    }
    let prompt = build_prompt_string(log, focus_point, system_instruction);
    let mut url = String::from_str("https://generativelanguage.googleapis.com/v1beta/models/");
    url.append(model_name);
    url.append(":generateContent?key=");
    url.append(api_key);
    let body = render_json(&request_body(prompt));
    Ok(ApiRequest { url, body })
}

/// The report that an answer of the service holds, where it holds one.
pub fn extract_report(answer: &JsonValue) -> (r: Option<String>)
    ensures
        match r {
            Some(text) => report_text(answer@) == Some(text@),
            None => report_text(answer@) is None,
        },
{
    let candidates = match answer.get_field("candidates") {
        Some(v) => v,
        None => { return None; },
    };
    let first = match candidates.get_item(0) {
        Some(v) => v,
        None => { return None; },
    };
    let content = match first.get_field("content") {
        Some(v) => v,
        None => { return None; },
    };
    let parts = match content.get_field("parts") {
        Some(v) => v,
        None => { return None; },
    };
    let part = match parts.get_item(0) {
        Some(v) => v,
        None => { return None; },
    };
    match part.get_field("text") {
        Some(JsonValue::String(text)) => Some(text.clone()),
        _ => None,
    }
}

/// Reads the service's answer. An answer that is no JSON and an answer
/// without a report are errors that carry the answer as it came.
pub fn interpret_response(answer: &str) -> (r: Result<String, ReportError>)
    ensures
        match parsed_json(answer@) {
            Some(tree) => match report_text(tree) {
                Some(text) => r matches Ok(report) && report@ == text,
                None => r matches Err(ReportError::NoReport(kept)) && kept@ == answer@,
            },
            None => r matches Err(ReportError::InvalidAnswer(kept)) && kept@ == answer@,
        },
{
    match parse_json(answer) {
        Some(value) => match extract_report(&value) {
            Some(report) => Ok(report),
            None => Err(ReportError::NoReport(String::from_str(answer))),
        },
        None => Err(ReportError::InvalidAnswer(String::from_str(answer))),
    }
}

} // verus!

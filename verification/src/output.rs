//! What the tool prints: tool manifests and tool responses.

use vstd::prelude::*;
use vstd::string::*;

use crate::error::{error_text, AppError};
use crate::openapi::OperationSchema;
use crate::outside::{json_parses, json_text_parses};

verus! {

/// A JSON value given by text: either JSON text itself, or the contents of a JSON string.
#[derive(Debug, Clone)]
pub enum Payload {
    /// JSON text, which `serde_json` accepts.
    Json(String),
    /// The contents of a JSON string value.
    Text(String),
}

/// `p` is the value of `text` given whether `text` parses as JSON: the JSON text where
/// it does, the plain string where it does not.
pub open spec fn is_parsed_payload(p: Payload, text: Seq<char>, parses: bool) -> bool {
    if parses {
        p matches Payload::Json(t) && t@ == text
    } else {
        p matches Payload::Text(t) && t@ == text
    }
}

/// `p` is the value that `text` stands for when it is read as JSON where it parses and as
/// a plain string where it does not.
pub open spec fn is_json_or_text(p: Payload, text: Seq<char>) -> bool {
    is_parsed_payload(p, text, json_text_parses(text))
}

impl Payload {
    /// The value of `text`: the JSON it holds where it parses as JSON, the string itself
    /// otherwise.
    pub fn json_or_text(text: String) -> (r: Payload)
        ensures
            is_json_or_text(r, text@),
    {
        let parses = json_parses(text.as_str());
        Payload::from_parse(text, parses)
    }

    /// The value of `text` once it is known whether `text` parses as JSON.
    pub fn from_parse(text: String, parses: bool) -> (r: Payload)
        ensures
            is_parsed_payload(r, text@, parses),
    {
        if parses {
            Payload::Json(text)
        } else {
            Payload::Text(text)
        }
    }
}

/// The protocol that a manifest describes.
#[derive(Debug, Clone, Copy, PartialEq, Eq, Structural)]
pub enum Protocol {
    Mcp,
    OpenApi,
}

/// The kind of output that a tool gives.
#[derive(Debug, Clone, Copy, PartialEq, Eq, Structural)]
pub enum OutputType {
    Text,
    Json,
    Binary,
}

/// The JSON schema of a tool's input.
#[derive(Debug)]
pub enum InputSchema {
    /// A schema as JSON text, as a server gave it.
    Json(String),
    /// The object schema of an OpenAPI operation.
    Operation(OperationSchema),
}

/// One tool of a manifest.
#[derive(Debug)]
pub struct Tool {
    pub name: String,
    pub original_name: Option<String>,
    pub description: String,
    pub input_schema: InputSchema,
    pub output_type: Option<OutputType>,
}

/// The tools that a server or a specification offers.
#[derive(Debug)]
pub struct ToolManifest {
    pub protocol: Protocol,
    pub source: String,
    pub version: Option<String>,
    pub tools: Vec<Tool>,
}

/// One piece of a tool's output.
#[derive(Debug)]
pub enum Content {
    Text { text: String },
    Json { data: Payload },
    Image { data: String, mime_type: String },
    Error { code: String, message: String },
}

/// What went wrong, in a failed response.
#[derive(Debug)]
pub struct ErrorDetail {
    pub code: String,
    pub category: Option<String>,
    pub message: String,
    pub retryable: Option<bool>,
    pub details: Option<Payload>,
}

/// Facts about a call.
#[derive(Debug)]
pub struct ResponseMetadata {
    pub duration_ms: u64,
    pub tool_call_id: Option<String>,
}

/// The outcome of calling a tool.
#[derive(Debug)]
pub struct ToolResponse {
    pub success: bool,
    pub tool: String,
    pub content: Option<Vec<Content>>,
    pub error: Option<ErrorDetail>,
    pub metadata: Option<ResponseMetadata>,
}

/// `r` is the successful response of `tool` with `content`.
pub open spec fn is_success_response(r: ToolResponse, tool: Seq<char>, content: Seq<Content>) -> bool {
    &&& r.success
    &&& r.tool@ == tool
    &&& r.content matches Some(c) && c@ == content
    &&& r.error is None
    &&& r.metadata is None
}

/// `r` is the failed response of `tool` with the error `code` and `message`, and nothing
/// more.
pub open spec fn is_error_response(
    r: ToolResponse,
    tool: Seq<char>,
    code: Seq<char>,
    message: Seq<char>,
) -> bool {
    &&& !r.success
    &&& r.tool@ == tool
    &&& r.content is None
    &&& r.error matches Some(d) && d.code@ == code && d.message@ == message && d.category is None
        && d.retryable is None && d.details is None
    &&& r.metadata is None
}

impl ToolResponse {
    /// The response of a call of `tool` that produced `content`.
    pub fn success(tool: String, content: Vec<Content>) -> (r: Self)
        ensures
            is_success_response(r, tool@, content@),
    {
        ToolResponse { success: true, tool, content: Some(content), error: None, metadata: None }
    }

    /// The response of a call of `tool` that failed with `code` and `message`.
    pub fn error(tool: String, code: &str, message: &str) -> (r: Self)
        ensures
            is_error_response(r, tool@, code@, message@),
    {
        ToolResponse {
            success: false,
            tool,
            content: None,
            error: Some(
                ErrorDetail {
                    code: String::from_str(code),
                    category: None,
                    message: String::from_str(message),
                    retryable: None,
                    details: None,
                },
            ),
            metadata: None,
        }
    }
}

/// The response printed when the tool fails before any tool answers: the tool is
/// `unknown`, and the error's text is both its code and its message.
pub fn failure_response(e: &AppError) -> (r: ToolResponse)
    ensures
        is_error_response(r, "unknown"@, error_text(*e), error_text(*e)),
{
    let text = e.display();
    ToolResponse::error(String::from_str("unknown"), text.as_str(), text.as_str())
}

} // verus!

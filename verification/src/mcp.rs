//! The MCP side of the tool: endpoints, JSON-RPC replies and what a reply turns into.

use vstd::prelude::*;
use vstd::string::*;

use vstd::utf8::encode_utf8;

use crate::cli::tool_arguments;
use crate::error::{is_error, is_step_error, step_failure, AppError, ErrorKind, Failure};
use crate::http::{merged_headers, request_headers, status_failure_message};
use crate::outside::{url_parse, url_parse_outcome, url_set_path, url_with_path};
use crate::output::{
    is_json_or_text, Content, InputSchema, Payload, Protocol, Tool, ToolManifest, ToolResponse,
};
use crate::pairs::{distinct_keys, merge_pairs, pair_views, upsert_all};
use crate::text::{decimal, i64_decimal, opt_view, signed_decimal, u64_decimal};

verus! {

/// The error part of a JSON-RPC reply.
#[derive(Debug)]
pub struct JsonRpcError {
    pub code: i64,
    pub message: String,
}

/// A JSON-RPC reply; its result is kept as JSON text.
#[derive(Debug)]
pub struct JsonRpcResponse {
    pub id: u64,
    pub result: Option<String>,
    pub error: Option<JsonRpcError>,
}

/// A tool that an MCP server offers; its input schema is kept as JSON text.
#[derive(Debug)]
pub struct McpTool {
    pub name: String,
    pub description: Option<String>,
    pub input_schema: String,
}

/// A resource that a tool's output refers to.
#[derive(Debug)]
pub struct ResourceContents {
    pub uri: String,
    pub text: Option<String>,
    pub mime_type: Option<String>,
}

/// One piece of a tool's output as an MCP server sends it.
#[derive(Debug)]
pub enum McpContent {
    Text { text: String },
    Image { data: String, mime_type: String },
    Resource { resource: ResourceContents },
}

/// The way the tool talks to an MCP server.
#[derive(Debug, Clone, Copy, PartialEq, Eq, Structural)]
pub enum Transport {
    /// Streamable HTTP: each request is a POST to the server's URL.
    Http,
    /// Server-sent events: requests are POSTed to a message endpoint.
    Sse,
    /// A child process that reads requests and writes replies line by line.
    Stdio,
}

/// The two requests that the tool sends.
#[derive(Debug, Clone, Copy, PartialEq, Eq, Structural)]
pub enum RpcCall {
    ListTools,
    CallTool,
}

/// The kind of error that a JSON-RPC error reply leads to: listing tools over HTTP or
/// server-sent events fails as a protocol error, any other request as an execution error.
pub open spec fn rpc_error_kind(transport: Transport, call: RpcCall) -> ErrorKind {
    if transport != Transport::Stdio && call == RpcCall::ListTools {
        ErrorKind::Protocol
    } else {
        ErrorKind::Execution
    }
}

/// The message of a JSON-RPC error reply; over server-sent events it lacks the word
/// `error`.
pub open spec fn rpc_error_message(transport: Transport, code: i64, message: Seq<char>) -> Seq<char> {
    if transport == Transport::Sse {
        "JSON-RPC "@ + signed_decimal(code as int) + ": "@ + message
    } else {
        "JSON-RPC error "@ + signed_decimal(code as int) + ": "@ + message
    }
}

/// The message for a reply to another request than the one sent.
pub open spec fn id_mismatch_message(expected: u64, got: u64) -> Seq<char> {
    "Request ID mismatch: expected "@ + decimal(expected as nat) + ", got "@ + decimal(
        got as nat,
    )
}

/// What a JSON-RPC reply to the request numbered `expected_id` comes to: over stdio, a reply
/// to another request is a protocol error; then an error reply is an error of
/// `rpc_error_kind`; then a reply without result is a protocol error; else its result.
pub open spec fn reply_outcome(
    transport: Transport,
    call: RpcCall,
    expected_id: u64,
    r: JsonRpcResponse,
) -> Result<Seq<char>, (ErrorKind, Seq<char>)> {
    if transport == Transport::Stdio && r.id != expected_id {
        Err((ErrorKind::Protocol, id_mismatch_message(expected_id, r.id)))
    } else if r.error is Some {
        Err(
            (
                rpc_error_kind(transport, call),
                rpc_error_message(transport, r.error->0.code, r.error->0.message@),
            ),
        )
    } else {
        match r.result {
            Some(t) => Ok(t@),
            None => Err((ErrorKind::Protocol, "Empty result"@)),
        }
    }
}

/// The result text of a JSON-RPC reply, or the error that the reply comes to.
pub fn reply_result(transport: Transport, call: RpcCall, expected_id: u64, reply: JsonRpcResponse) -> (r:
    Result<String, AppError>)
    ensures
        match r {
            Ok(t) => reply_outcome(transport, call, expected_id, reply) == Ok::<
                Seq<char>,
                (ErrorKind, Seq<char>),
            >(t@),
            Err(e) => reply_outcome(transport, call, expected_id, reply) matches Err((k, m))
                && is_error(e, k, m),
        },
{
    if transport == Transport::Stdio && reply.id != expected_id {
        let msg = String::from_str("Request ID mismatch: expected ").concat(
            u64_decimal(expected_id).as_str(),
        ).concat(", got ").concat(u64_decimal(reply.id).as_str());
        return Err(AppError::Protocol(msg));
    }
    match reply.error {
        Some(err) => {
            let head = if transport == Transport::Sse {
                String::from_str("JSON-RPC ")
            } else {
                String::from_str("JSON-RPC error ")
            };
            let msg = head.concat(i64_decimal(err.code).as_str()).concat(": ").concat(
                err.message.as_str(),
            );
            let kind = if transport != Transport::Stdio && call == RpcCall::ListTools {
                ErrorKind::Protocol
            } else {
                ErrorKind::Execution
            };
            Err(AppError::of_kind(kind, msg))
        },
        None => match reply.result {
            Some(t) => Ok(t),
            None => Err(AppError::Protocol(String::from_str("Empty result"))),
        },
    }
}

/// The error for a reply over streamable HTTP whose status is not a success: a protocol
/// error when listing tools, an execution error when calling one.
pub fn status_error(call: RpcCall, status: &str, body: &str) -> (r: AppError)
    ensures
        is_error(
            r,
            if call == RpcCall::ListTools {
                ErrorKind::Protocol
            } else {
                ErrorKind::Execution
            },
            status_failure_message(status@, body@),
        ),
{
    let msg = crate::http::status_failure(status, body);
    match call {
        RpcCall::ListTools => AppError::Protocol(msg),
        RpcCall::CallTool => AppError::Execution(msg),
    }
}

/// The kind of error that a failed request ends the tool with, unless the failure keeps
/// its own: protocol for listing tools, execution for calling one.
pub open spec fn request_kind(call: RpcCall) -> ErrorKind {
    if call == RpcCall::ListTools {
        ErrorKind::Protocol
    } else {
        ErrorKind::Execution
    }
}

/// The error that a failed request ends the tool with: a network failure (the request
/// could not be sent, or timed out) stays a network error and a command-line error stays
/// one; any other failure becomes a protocol error when listing tools and an execution
/// error when calling one, with the failure's text.
pub fn request_failure(call: RpcCall, f: Failure) -> (r: AppError)
    ensures
        is_step_error(f, request_kind(call), r),
{
    let kind = match call {
        RpcCall::ListTools => ErrorKind::Protocol,
        RpcCall::CallTool => ErrorKind::Execution,
    };
    step_failure(kind, f)
}

/// What a request asks: the list of tools, or a call of a tool with its arguments.
#[derive(Debug)]
pub enum RpcParams {
    ListTools,
    CallTool { name: String, arguments: Vec<(String, Payload)> },
}

/// A JSON-RPC request.
#[derive(Debug)]
pub struct JsonRpcRequest {
    pub jsonrpc: String,
    pub id: u64,
    pub method: String,
    pub params: RpcParams,
}

/// The JSON-RPC method of a request.
pub open spec fn rpc_method(p: RpcParams) -> Seq<char> {
    match p {
        RpcParams::ListTools => "tools/list"@,
        RpcParams::CallTool { .. } => "tools/call"@,
    }
}

/// The request that the parameters make.
pub open spec fn rpc_call(p: RpcParams) -> RpcCall {
    match p {
        RpcParams::ListTools => RpcCall::ListTools,
        RpcParams::CallTool { .. } => RpcCall::CallTool,
    }
}

/// `r` is the JSON-RPC 2.0 request numbered `id` with `params`.
pub open spec fn is_request(r: JsonRpcRequest, id: u64, params: RpcParams) -> bool {
    &&& r.jsonrpc@ == "2.0"@
    &&& r.id == id
    &&& r.method@ == rpc_method(params)
    &&& r.params == params
}

impl JsonRpcRequest {
    /// The JSON-RPC 2.0 request numbered `id` with `params`.
    pub fn new(id: u64, params: RpcParams) -> (r: Self)
        ensures
            is_request(r, id, params),
    {
        let method = match &params {
            RpcParams::ListTools => String::from_str("tools/list"),
            RpcParams::CallTool { .. } => String::from_str("tools/call"),
        };
        JsonRpcRequest { jsonrpc: String::from_str("2.0"), id, method, params }
    }
}

/// The request sent over HTTP or server-sent events, where each connection carries one
/// request: it is numbered 1.
pub fn single_request(params: RpcParams) -> (r: JsonRpcRequest)
    ensures
        is_request(r, 1, params),
{
    JsonRpcRequest::new(1, params)
}

/// The parameters of a call of the tool `name` with the `--key value` pairs that were read:
/// one argument per key, with the value of its last pair as JSON where it parses and as a
/// string otherwise.
pub fn call_params(name: String, params: &Vec<(String, String)>) -> (r: RpcParams)
    ensures
        r matches RpcParams::CallTool { name: n, arguments } && n@ == name@ && arguments@.len()
            == upsert_all(pair_views(params@)).len() && forall|i: int|
            0 <= i < arguments@.len() ==> {
                let d = #[trigger] upsert_all(pair_views(params@))[i];
                arguments@[i].0@ == d.0 && is_json_or_text(arguments@[i].1, d.1)
            },
{
    RpcParams::CallTool { name, arguments: tool_arguments(params) }
}

/// The numbers `1` to `n`, in order.
pub open spec fn ids_up_to(n: u64) -> Seq<u64> {
    Seq::new(n as nat, |i: int| (i + 1) as u64)
}

/// Requests numbered from `ids_up_to` are numbered 1, 2, 3, ...: each above the one
/// before, so none is used twice.
pub proof fn lemma_ids_rise(n: u64)
    ensures
        forall|i: int, j: int| 0 <= i < j < n ==> ids_up_to(n)[i] < ids_up_to(n)[j],
        forall|i: int| 0 <= i < n ==> #[trigger] ids_up_to(n)[i] == i + 1,
{
}

/// The request numbering of a session with a child process.
pub struct StdioSession {
    request_id: u64,
    issued: Ghost<Seq<u64>>,
}

impl StdioSession {
    #[verifier::type_invariant]
    closed spec fn wf(self) -> bool {
        self.issued@ =~= ids_up_to(self.request_id)
    }

    /// The number of the last request sent; 0 before the first.
    pub closed spec fn last_id(self) -> u64 {
        self.request_id
    }

    /// The numbers of the requests sent so far, in order.
    pub closed spec fn issued_ids(self) -> Seq<u64> {
        self.issued@
    }

    /// A session that has sent no request.
    pub fn new() -> (r: Self)
        ensures
            r.last_id() == 0,
            r.issued_ids() == ids_up_to(0),
    {
        StdioSession { request_id: 0, issued: Ghost(Seq::empty()) }
    }

    /// The number of the last request sent.
    pub fn last_request_id(&self) -> (r: u64)
        ensures
            r == self.last_id(),
    {
        self.request_id
    }

    /// The number of the next request: one more than the last. Over a session the numbers
    /// sent are 1, 2, 3, ..., whether the requests succeed or not.
    pub fn next_request_id(&mut self) -> (r: u64)
        requires
            old(self).last_id() < u64::MAX,
        ensures
            r == old(self).last_id() + 1,
            final(self).last_id() == r,
            final(self).issued_ids() == old(self).issued_ids().push(r),
            final(self).issued_ids() == ids_up_to(r),
    {
        proof {
            use_type_invariant(&*self);
        }
        let r = self.request_id + 1;
        let ghost issued = self.issued@.push(r);
        assert(issued =~= ids_up_to(r));
        *self = StdioSession { request_id: r, issued: Ghost(issued) };
        r
    }

    /// The next request of the session, with `params`.
    pub fn request(&mut self, params: RpcParams) -> (r: JsonRpcRequest)
        requires
            old(self).last_id() < u64::MAX,
        ensures
            r.id == old(self).last_id() + 1,
            is_request(r, r.id, params),
            final(self).last_id() == old(self).last_id() + 1,
            final(self).issued_ids() == old(self).issued_ids().push(r.id),
            final(self).issued_ids() == ids_up_to(r.id),
    {
        let id = self.next_request_id();
        JsonRpcRequest::new(id, params)
    }

    /// The result text of the reply to the last request, or the error that the reply comes
    /// to.
    pub fn reply(&self, call: RpcCall, reply: JsonRpcResponse) -> (r: Result<String, AppError>)
        ensures
            match r {
                Ok(t) => reply_outcome(Transport::Stdio, call, self.last_id(), reply) == Ok::<
                    Seq<char>,
                    (ErrorKind, Seq<char>),
                >(t@),
                Err(e) => reply_outcome(Transport::Stdio, call, self.last_id(), reply) matches Err(
                    (k, m),
                ) && is_error(e, k, m),
            },
    {
        reply_result(Transport::Stdio, call, self.request_id, reply)
    }
}

/// The error for a line read from a child process, which must not be empty: an empty read
/// means that the process closed its output.
pub fn check_reply_line(line: &str) -> (r: Result<(), AppError>)
    ensures
        match r {
            Ok(()) => line@.len() > 0,
            Err(e) => line@.len() == 0 && is_error(e, ErrorKind::Protocol, "Empty response from server"@),
        },
{
    if line.unicode_len() == 0 {
        Err(AppError::Protocol(String::from_str("Empty response from server")))
    } else {
        Ok(())
    }
}

/// The error for a URL that does not parse: a network error with the parser's message.
pub open spec fn endpoint_outcome(url: Seq<char>) -> Result<Seq<char>, (ErrorKind, Seq<char>)> {
    match url_parse_outcome(url) {
        Ok(u) => Ok(u),
        Err(m) => Err((ErrorKind::Network, m)),
    }
}

/// A client of an MCP server over streamable HTTP, as far as it is not the connection.
#[derive(Debug)]
pub struct McpHttpClient {
    base_url: String,
    timeout_secs: u64,
    headers: Vec<(String, String)>,
}

impl McpHttpClient {
    #[verifier::type_invariant]
    closed spec fn wf(self) -> bool {
        distinct_keys(pair_views(self.headers@))
    }

    /// The URL that requests go to, as the URL parser serializes it.
    pub closed spec fn endpoint(self) -> Seq<char> {
        self.base_url@
    }

    /// The timeout of each request, in seconds.
    pub closed spec fn timeout(self) -> u64 {
        self.timeout_secs
    }

    /// The headers sent with each request; no name occurs twice.
    pub closed spec fn header_pairs(self) -> Seq<(Seq<char>, Seq<char>)> {
        pair_views(self.headers@)
    }

    /// A client for `base_url` with no extra headers.
    pub fn new(base_url: &str, timeout_secs: u64) -> (r: Result<Self, AppError>)
        ensures
            match r {
                Ok(c) => endpoint_outcome(base_url@) == Ok::<Seq<char>, (ErrorKind, Seq<char>)>(
                    c.endpoint(),
                ) && c.timeout() == timeout_secs && c.header_pairs().len() == 0,
                Err(e) => endpoint_outcome(base_url@) matches Err((k, m)) && is_error(e, k, m),
            },
    {
        McpHttpClient::new_with_headers(base_url, timeout_secs, &Vec::new())
    }

    /// A client for `base_url` that sends `headers` with each request, each name once with
    /// its last value.
    pub fn new_with_headers(base_url: &str, timeout_secs: u64, headers: &Vec<(String, String)>) -> (r:
        Result<Self, AppError>)
        ensures
            match r {
                Ok(c) => endpoint_outcome(base_url@) == Ok::<Seq<char>, (ErrorKind, Seq<char>)>(
                    c.endpoint(),
                ) && c.timeout() == timeout_secs && c.header_pairs() == upsert_all(
                    pair_views(headers@),
                ) && distinct_keys(c.header_pairs()),
                Err(e) => endpoint_outcome(base_url@) matches Err((k, m)) && is_error(e, k, m),
            },
    {
        match url_parse(base_url) {
            Ok(u) => Ok(McpHttpClient { base_url: u, timeout_secs, headers: merge_pairs(headers) }),
            Err(m) => Err(AppError::Network(m)),
        }
    }

    /// The URL that requests go to.
    pub fn base_url(&self) -> (r: &String)
        ensures
            r@ == self.endpoint(),
    {
        &self.base_url
    }

    /// The timeout of each request, in seconds.
    pub fn timeout_secs(&self) -> (r: u64)
        ensures
            r == self.timeout(),
    {
        self.timeout_secs
    }

    /// The headers of each request: the client's own, then the authentication header of
    /// the environment unless one of them already authenticates the request.
    pub fn request_headers(&self, api_key: Option<String>, bearer: Option<String>) -> (r: Vec<
        (String, String),
    >)
        ensures
            pair_views(r@) == merged_headers(self.header_pairs(), opt_view(api_key), opt_view(bearer)),
    {
        request_headers(&self.headers, api_key, bearer)
    }
}

/// A client of an MCP server over server-sent events, as far as it is not the connection.
#[derive(Debug)]
pub struct McpSseClient {
    sse_url: String,
    sse_endpoint: String,
    message_endpoint: Option<String>,
    timeout_secs: u64,
    headers: Vec<(String, String)>,
}

impl McpSseClient {
    #[verifier::type_invariant]
    closed spec fn wf(self) -> bool {
        &&& url_parse_outcome(self.sse_url@) == Ok::<Seq<char>, Seq<char>>(self.sse_endpoint@)
        &&& distinct_keys(pair_views(self.headers@))
    }

    /// The headers sent with each request, the connection's too; no name occurs twice.
    pub closed spec fn header_pairs(self) -> Seq<(Seq<char>, Seq<char>)> {
        pair_views(self.headers@)
    }

    /// The URL as given.
    pub closed spec fn source_url(self) -> Seq<char> {
        self.sse_url@
    }

    /// The URL of the event stream.
    pub closed spec fn endpoint(self) -> Seq<char> {
        self.sse_endpoint@
    }

    /// The URL that requests are posted to, once connected.
    pub closed spec fn message_url(self) -> Option<Seq<char>> {
        match self.message_endpoint {
            Some(m) => Some(m@),
            None => None,
        }
    }

    /// The timeout of each request, in seconds.
    pub closed spec fn timeout(self) -> u64 {
        self.timeout_secs
    }

    /// A client, not yet connected, for the event stream at `sse_url`, with no extra
    /// headers.
    pub fn new(sse_url: &str, timeout_secs: u64) -> (r: Result<Self, AppError>)
        ensures
            match r {
                Ok(c) => endpoint_outcome(sse_url@) == Ok::<Seq<char>, (ErrorKind, Seq<char>)>(
                    c.endpoint(),
                ) && c.source_url() == sse_url@ && c.message_url() is None && c.timeout()
                    == timeout_secs && c.header_pairs().len() == 0,
                Err(e) => endpoint_outcome(sse_url@) matches Err((k, m)) && is_error(e, k, m),
            },
    {
        McpSseClient::new_with_headers(sse_url, timeout_secs, &Vec::new())
    }

    /// A client, not yet connected, for the event stream at `sse_url`, that sends `headers`
    /// with the connection and with each request, each name once with its last value.
    pub fn new_with_headers(sse_url: &str, timeout_secs: u64, headers: &Vec<(String, String)>) -> (r:
        Result<Self, AppError>)
        ensures
            match r {
                Ok(c) => endpoint_outcome(sse_url@) == Ok::<Seq<char>, (ErrorKind, Seq<char>)>(
                    c.endpoint(),
                ) && c.source_url() == sse_url@ && c.message_url() is None && c.timeout()
                    == timeout_secs && c.header_pairs() == upsert_all(pair_views(headers@))
                    && distinct_keys(c.header_pairs()),
                Err(e) => endpoint_outcome(sse_url@) matches Err((k, m)) && is_error(e, k, m),
            },
    {
        match url_parse(sse_url) {
            Ok(u) => Ok(
                McpSseClient {
                    sse_url: String::from_str(sse_url),
                    sse_endpoint: u,
                    message_endpoint: None,
                    timeout_secs,
                    headers: merge_pairs(headers),
                },
            ),
            Err(m) => Err(AppError::Network(m)),
        }
    }

    /// The headers of the connection and of each request: the client's own, then the
    /// authentication header of the environment unless one of them already authenticates
    /// the request.
    pub fn request_headers(&self, api_key: Option<String>, bearer: Option<String>) -> (r: Vec<
        (String, String),
    >)
        ensures
            pair_views(r@) == merged_headers(self.header_pairs(), opt_view(api_key), opt_view(bearer)),
    {
        request_headers(&self.headers, api_key, bearer)
    }

    /// The URL of the event stream, which the connection is opened to.
    pub fn sse_endpoint(&self) -> (r: String)
        ensures
            r@ == self.endpoint(),
    {
        self.sse_endpoint.clone()
    }

    /// The timeout of each request, in seconds.
    pub fn timeout_secs(&self) -> (r: u64)
        ensures
            r == self.timeout(),
    {
        self.timeout_secs
    }

    /// Records a successful connection: requests then go to the stream's URL with the
    /// path `/message`. A URL within 97 bytes of 4 GiB, which the URL type cannot give a
    /// new path, is left without a message endpoint.
    pub fn connect(&mut self)
        ensures
            encode_utf8(old(self).endpoint()).len() + 97 < 0x1_0000_0000 ==> final(self).message_url()
                == Some(url_with_path(old(self).source_url(), "/message"@)),
            encode_utf8(old(self).endpoint()).len() + 97 >= 0x1_0000_0000 ==> final(self).message_url()
                == old(self).message_url(),
            final(self).source_url() == old(self).source_url(),
            final(self).header_pairs() == old(self).header_pairs(),
            final(self).endpoint() == old(self).endpoint(),
            final(self).timeout() == old(self).timeout(),
    {
        proof {
            use_type_invariant(&*self);
            reveal_strlit("/message");
        }
        let n: usize = self.sse_endpoint.as_str().as_bytes().len();
        if (n as u64) < 0x1_0000_0000u64 - 97 {
            let m = url_set_path(self.sse_url.as_str(), "/message");
            self.message_endpoint = Some(m);
        }
    }

    /// The URL that requests are posted to; before `connect` there is none.
    pub fn message_endpoint(&self) -> (r: Result<String, AppError>)
        ensures
            match r {
                Ok(u) => self.message_url() == Some(u@),
                Err(e) => self.message_url() is None && is_error(
                    e,
                    ErrorKind::Protocol,
                    "Not connected"@,
                ),
            },
    {
        match &self.message_endpoint {
            Some(m) => Ok(m.clone()),
            None => Err(AppError::Protocol(String::from_str("Not connected"))),
        }
    }
}

/// What a piece of MCP output is shown as: text and images as they are, a resource as its
/// text or, where it has none, as `Resource: ` and its URI.
pub open spec fn shown_content(c: McpContent, shown: Content) -> bool {
    match c {
        McpContent::Text { text } => shown matches Content::Text { text: t } && t@ == text@,
        McpContent::Image { data, mime_type } => shown matches Content::Image {
            data: d,
            mime_type: m,
        } && d@ == data@ && m@ == mime_type@,
        McpContent::Resource { resource } => shown matches Content::Text { text: t } && t@ == match resource.text {
            Some(x) => x@,
            None => "Resource: "@ + resource.uri@,
        },
    }
}

/// The output piece that a piece of MCP output is shown as.
pub fn content_entry(c: McpContent) -> (r: Content)
    ensures
        shown_content(c, r),
{
    match c {
        McpContent::Text { text } => Content::Text { text },
        McpContent::Image { data, mime_type } => Content::Image { data, mime_type },
        McpContent::Resource { resource } => Content::Text {
            text: match resource.text {
                Some(x) => x,
                None => String::from_str("Resource: ").concat(resource.uri.as_str()),
            },
        },
    }
}

/// The response to a successful call of `tool`: its output, piece by piece.
pub fn call_response(tool: String, content: Vec<McpContent>) -> (r: ToolResponse)
    ensures
        r.success,
        r.tool@ == tool@,
        r.error is None,
        r.metadata is None,
        r.content matches Some(v) && v@.len() == content@.len() && forall|i: int|
            0 <= i < content@.len() ==> shown_content(content@[i], #[trigger] v@[i]),
{
    let mut shown: Vec<Content> = Vec::new();
    let ghost input = content@;
    for c in it: content
        invariant
            it.seq() == input,
            shown@.len() == it.index(),
            forall|i: int| 0 <= i < shown@.len() ==> shown_content(input[i], #[trigger] shown@[i]),
    {
        shown.push(content_entry(c));
    }
    ToolResponse::success(tool, shown)
}

/// How an MCP tool is listed: under its name, with its description or an empty one, and
/// with its input schema.
pub open spec fn listed_tool(t: McpTool, shown: Tool) -> bool {
    &&& shown.name@ == t.name@
    &&& shown.original_name matches Some(n) && n@ == t.name@
    &&& shown.description@ == match t.description {
        Some(d) => d@,
        None => Seq::empty(),
    }
    &&& shown.input_schema matches InputSchema::Json(s) && s@ == t.input_schema@
    &&& shown.output_type is None
}

/// The manifest of the tools that an MCP server offers.
pub fn mcp_manifest(source: String, tools: Vec<McpTool>) -> (r: ToolManifest)
    ensures
        r.protocol == Protocol::Mcp,
        r.source@ == source@,
        r.version matches Some(v) && v@ == "2024-11-05"@,
        r.tools@.len() == tools@.len(),
        forall|i: int| 0 <= i < tools@.len() ==> listed_tool(tools@[i], #[trigger] r.tools@[i]),
        forall|i: int|
            0 <= i < tools@.len() ==> (#[trigger] tools@[i].description matches Some(d)
                ==> r.tools@[i].description@ == d@),
        forall|i: int|
            0 <= i < tools@.len() ==> (#[trigger] tools@[i].description is None
                ==> r.tools@[i].description@.len() == 0),
{
    let mut listed: Vec<Tool> = Vec::new();
    let ghost input = tools@;
    for t in it: tools
        invariant
            it.seq() == input,
            listed@.len() == it.index(),
            forall|i: int| 0 <= i < listed@.len() ==> listed_tool(input[i], #[trigger] listed@[i]),
    {
        let description = match t.description {
            Some(d) => d,
            None => String::new(),
        };
        let name = t.name;
        listed.push(
            Tool {
                name: name.clone(),
                original_name: Some(name),
                description,
                input_schema: InputSchema::Json(t.input_schema),
                output_type: None,
            },
        );
    }
    ToolManifest {
        protocol: Protocol::Mcp,
        source,
        version: Some(String::from_str("2024-11-05")),
        tools: listed,
    }
}

/// The source named in the manifest of a server run as a child process.
pub fn stdio_source(command: &str) -> (r: String)
    ensures
        r@ == "stdio: "@ + command@,
{
    String::from_str("stdio: ").concat(command)
}

/// Over stdio, a reply is only ever taken as the answer to the request that was just sent:
/// a reply with another number is a protocol error, whatever it holds. Over HTTP and
/// server-sent events the number is not looked at.
pub proof fn lemma_stdio_replies_match_requests(call: RpcCall, expected_id: u64, r: JsonRpcResponse)
    ensures
        r.id != expected_id ==> (reply_outcome(Transport::Stdio, call, expected_id, r) matches Err(
            (k, _),
        ) && k == ErrorKind::Protocol),
        forall|other: u64|
            reply_outcome(Transport::Http, call, expected_id, r) == #[trigger] reply_outcome(
                Transport::Http,
                call,
                other,
                r,
            ),
        forall|other: u64|
            reply_outcome(Transport::Sse, call, expected_id, r) == #[trigger] reply_outcome(
                Transport::Sse,
                call,
                other,
                r,
            ),
{
}

/// Over every transport, a reply to the request that was sent (over HTTP and server-sent
/// events any reply counts as such) that carries no error comes to its result exactly when
/// it has one, and to the protocol error "Empty result" when it has none; a reply that
/// carries an error never comes to a result.
pub proof fn lemma_replies_without_error_give_their_result(
    transport: Transport,
    call: RpcCall,
    expected_id: u64,
    r: JsonRpcResponse,
)
    ensures
        (transport != Transport::Stdio || r.id == expected_id) && r.error is None ==> (
        match r.result {
            Some(t) => reply_outcome(transport, call, expected_id, r) == Ok::<
                Seq<char>,
                (ErrorKind, Seq<char>),
            >(t@),
            None => reply_outcome(transport, call, expected_id, r) == Err::<
                Seq<char>,
                (ErrorKind, Seq<char>),
            >((ErrorKind::Protocol, "Empty result"@)),
        }),
        reply_outcome(transport, call, expected_id, r) is Ok <==> ((transport != Transport::Stdio
            || r.id == expected_id) && r.error is None && r.result is Some),
        reply_outcome(transport, call, expected_id, r) matches Ok(t) ==> r.result matches Some(
            s,
        ) && s@ == t,
        (transport != Transport::Stdio || r.id == expected_id) && r.error is None ==> forall|
            other: Transport,
        |
            (other != Transport::Stdio || r.id == expected_id) ==> #[trigger] reply_outcome(
                other,
                call,
                expected_id,
                r,
            ) == reply_outcome(transport, call, expected_id, r),
{
}

/// Each tool of an MCP manifest shows the server's tool as it is: its name (also as the
/// original name), the server's description where it gave one and an empty one where it
/// gave none, and the server's input schema.
pub proof fn lemma_listed_tools_keep_the_server_text(t: McpTool, shown: Tool)
    requires
        listed_tool(t, shown),
    ensures
        shown.name@ == t.name@,
        shown.original_name matches Some(n) && n@ == t.name@,
        t.description matches Some(d) ==> shown.description@ == d@,
        t.description is None ==> shown.description@.len() == 0,
        shown.input_schema matches InputSchema::Json(s) && s@ == t.input_schema@,
{
}

} // verus!

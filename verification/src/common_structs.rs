//! The JSON-RPC packets that the proxy relays and the inspector records.
//!
//! JSON payloads (`params`, `result`, error `data`) are carried as their
//! serialized JSON text; timestamps are nanoseconds since the Unix epoch.
use vstd::prelude::*;
use crate::clock::{local_time_text, timestamp_in_range};
use crate::text::{
    chars_of, int_decimal, lemma_int_decimal_injective, push_chars, push_nat_decimal, push_str_chars,
    string_from_chars,
};

verus! {

/// How the proxied MCP server is reached.
#[derive(Clone, Copy, Debug, PartialEq, Eq, Structural)]
pub enum McpServerTransport {
    Stdio,
    Http,
}

/// A JSON-RPC request id: a number or a string.
#[derive(Debug, PartialEq, Eq)]
pub enum Id {
    NumberId(i64),
    StringId(String),
}

/// The mathematical value of an [`Id`].
pub enum IdView {
    Number(i64),
    Text(Seq<char>),
}

impl View for Id {
    type V = IdView;

    open spec fn view(&self) -> IdView {
        match self {
            Id::NumberId(n) => IdView::Number(*n),
            Id::StringId(s) => IdView::Text(s@),
        }
    }
}

impl Id {
    /// A copy of this id.
    pub fn duplicate(&self) -> (r: Id)
        ensures
            r == *self,
    {
        match self {
            Id::NumberId(n) => Id::NumberId(*n),
            Id::StringId(s) => Id::StringId(s.clone()),
        }
    }

    /// Whether two ids are the same id.
    pub fn same_as(&self, other: &Id) -> (b: bool)
        ensures
            b == (self@ == other@),
    {
        match (self, other) {
            (Id::NumberId(a), Id::NumberId(b)) => *a == *b,
            (Id::StringId(a), Id::StringId(b)) => *a == *b,
            _ => false,
        }
    }
}

/// The protocol version every packet carries.
pub open spec fn json_rpc_version() -> Seq<char> {
    "2.0"@
}

/// A fresh `String` holding the protocol version.
pub fn json_rpc_string() -> (s: String)
    ensures
        s@ == json_rpc_version(),
{
    String::from_str("2.0")
}

/// A copy of an optional string.
pub fn duplicate_opt_string(o: &Option<String>) -> (r: Option<String>)
    ensures
        r == *o,
{
    match o {
        Some(s) => Some(s.clone()),
        None => None,
    }
}

/// A JSON-RPC request.
#[derive(Debug, PartialEq, Eq)]
pub struct MCPRequest {
    pub jsonrpc: String,
    pub id: Id,
    pub method: String,
    /// The parameters, as JSON text.
    pub params: Option<String>,
}

impl MCPRequest {
    /// A request of the current protocol version.
    pub fn new(id: Id, method: String, params: Option<String>) -> (r: MCPRequest)
        ensures
            r.jsonrpc@ == json_rpc_version(),
            r.id == id,
            r.method == method,
            r.params == params,
    {
        MCPRequest { jsonrpc: json_rpc_string(), id, method, params }
    }

    /// A copy of this request.
    pub fn duplicate(&self) -> (r: MCPRequest)
        ensures
            r == *self,
    {
        MCPRequest {
            jsonrpc: self.jsonrpc.clone(),
            id: self.id.duplicate(),
            method: self.method.clone(),
            params: duplicate_opt_string(&self.params),
        }
    }
}

/// A JSON-RPC error object.
#[derive(Debug, PartialEq, Eq)]
pub struct MCPError {
    pub code: i32,
    pub message: String,
    /// Additional data, as JSON text.
    pub data: Option<String>,
}

impl MCPError {
    /// An error object with the given fields.
    pub fn new(code: i32, message: String, data: Option<String>) -> (r: MCPError)
        ensures
            r.code == code,
            r.message == message,
            r.data == data,
    {
        MCPError { code, message, data }
    }

    /// A copy of this error.
    pub fn duplicate(&self) -> (r: MCPError)
        ensures
            r == *self,
    {
        MCPError {
            code: self.code,
            message: self.message.clone(),
            data: duplicate_opt_string(&self.data),
        }
    }
}

/// A JSON-RPC response: a result or an error.
#[derive(Debug, PartialEq, Eq)]
pub enum MCPResponse {
    Success { jsonrpc: String, id: Id, result: String },
    Fail { jsonrpc: String, id: Id, error: MCPError },
}

impl MCPResponse {
    /// A successful response carrying `result` (JSON text).
    pub fn succeed(id: Id, result: String) -> (r: MCPResponse)
        ensures
            r matches MCPResponse::Success { jsonrpc: v, id: i, result: res } && v@
                == json_rpc_version() && i == id && res == result,
    {
        MCPResponse::Success { jsonrpc: json_rpc_string(), id, result }
    }

    /// A failed response carrying `error`.
    pub fn fail(id: Id, error: MCPError) -> (r: MCPResponse)
        ensures
            r matches MCPResponse::Fail { jsonrpc: v, id: i, error: e } && v@ == json_rpc_version()
                && i == id && e == error,
    {
        MCPResponse::Fail { jsonrpc: json_rpc_string(), id, error }
    }

    /// The id of the request this response answers.
    pub open spec fn response_id(self) -> Id {
        match self {
            MCPResponse::Success { id, .. } => id,
            MCPResponse::Fail { id, .. } => id,
        }
    }

    /// The id of the request this response answers.
    pub fn id(&self) -> (r: &Id)
        ensures
            *r == self.response_id(),
    {
        match self {
            MCPResponse::Success { id, .. } => id,
            MCPResponse::Fail { id, .. } => id,
        }
    }

    /// A copy of this response.
    pub fn duplicate(&self) -> (r: MCPResponse)
        ensures
            r == *self,
    {
        match self {
            MCPResponse::Success { jsonrpc, id, result } => MCPResponse::Success {
                jsonrpc: jsonrpc.clone(),
                id: id.duplicate(),
                result: result.clone(),
            },
            MCPResponse::Fail { jsonrpc, id, error } => MCPResponse::Fail {
                jsonrpc: jsonrpc.clone(),
                id: id.duplicate(),
                error: error.duplicate(),
            },
        }
    }
}

/// A JSON-RPC notification.
#[derive(Debug, PartialEq, Eq)]
pub struct MCPNotification {
    pub jsonrpc: String,
    pub method: String,
    /// The parameters, as JSON text.
    pub params: Option<String>,
}

impl MCPNotification {
    /// A notification of the current protocol version.
    pub fn new(method: String, params: Option<String>) -> (r: MCPNotification)
        ensures
            r.jsonrpc@ == json_rpc_version(),
            r.method == method,
            r.params == params,
    {
        MCPNotification { jsonrpc: json_rpc_string(), method, params }
    }

    /// A copy of this notification.
    pub fn duplicate(&self) -> (r: MCPNotification)
        ensures
            r == *self,
    {
        MCPNotification {
            jsonrpc: self.jsonrpc.clone(),
            method: self.method.clone(),
            params: duplicate_opt_string(&self.params),
        }
    }
}

/// Any packet of the protocol.
#[derive(Debug, PartialEq, Eq)]
pub enum MCPDataPacket {
    Request(MCPRequest),
    Response(MCPResponse),
    Notification(MCPNotification),
}

/// A request with the time it was recorded (nanoseconds since the epoch).
#[derive(Debug, PartialEq, Eq)]
pub struct StampedMcpRequest {
    pub request: MCPRequest,
    pub timestamp: i128,
}

/// A response with the time it was recorded.
#[derive(Debug, PartialEq, Eq)]
pub struct StampedMcpResponse {
    pub response: MCPResponse,
    pub timestamp: i128,
}

/// A notification with the time it was recorded.
#[derive(Debug, PartialEq, Eq)]
pub struct StampedMcpNotification {
    pub notification: MCPNotification,
    pub timestamp: i128,
}

/// A request with its recording time written out for display.
#[derive(Debug, PartialEq, Eq)]
pub struct StampedMcpRequestForSerialize {
    pub request: MCPRequest,
    pub timestamp: String,
}

/// A response with its recording time written out for display.
#[derive(Debug, PartialEq, Eq)]
pub struct StampedMcpResponseForSerialize {
    pub response: MCPResponse,
    pub timestamp: String,
}

impl StampedMcpRequest {
    /// The request with its time written out in the machine's time zone.
    pub fn pack_for_serializing(self) -> (r: StampedMcpRequestForSerialize)
        requires
            timestamp_in_range(self.timestamp as int),
        ensures
            r.request == self.request,
    {
        let timestamp = local_time_text(self.timestamp);
        StampedMcpRequestForSerialize { request: self.request, timestamp }
    }
}

impl StampedMcpResponse {
    /// The response with its time written out in the machine's time zone.
    pub fn pack_for_serializing(self) -> (r: StampedMcpResponseForSerialize)
        requires
            timestamp_in_range(self.timestamp as int),
        ensures
            r.response == self.response,
    {
        let timestamp = local_time_text(self.timestamp);
        StampedMcpResponseForSerialize { response: self.response, timestamp }
    }
}

/// Values that can be copied exactly.
pub trait Duplicate: Sized {
    fn duplicate(&self) -> (r: Self)
        ensures
            r == *self,
    ;
}

impl Duplicate for StampedMcpRequest {
    fn duplicate(&self) -> (r: Self) {
        StampedMcpRequest { request: self.request.duplicate(), timestamp: self.timestamp }
    }
}

impl Duplicate for StampedMcpResponse {
    fn duplicate(&self) -> (r: Self) {
        StampedMcpResponse { response: self.response.duplicate(), timestamp: self.timestamp }
    }
}

impl Duplicate for StampedMcpNotification {
    fn duplicate(&self) -> (r: Self) {
        StampedMcpNotification {
            notification: self.notification.duplicate(),
            timestamp: self.timestamp,
        }
    }
}

/// The outcome shown for an inspector entry.
#[derive(Clone, Copy, Debug, PartialEq, Eq, Structural)]
pub enum LogStatus {
    Success,
    Error,
    Request,
    Start,
    Notification,
    Pending,
}

/// Which side sent the logged packet.
#[derive(Clone, Copy, Debug, PartialEq, Eq, Structural)]
pub enum RequestType {
    Client,
    Server,
}

/// The body that finishes a connection's initialization: the server's answer
/// and the transport it was reached over.
#[derive(Debug, PartialEq, Eq)]
pub struct ConnectionInitializeFinishRequest {
    pub response: MCPResponse,
    pub transport: McpServerTransport,
}

/// The word naming the side that sent a packet.
pub open spec fn origin_word(source: RequestType) -> Seq<char> {
    match source {
        RequestType::Client => "client"@,
        RequestType::Server => "server"@,
    }
}

/// The text of an id as it appears in an element id.
pub open spec fn id_text(id: IdView) -> Seq<char> {
    match id {
        IdView::Number(n) => int_decimal(n as int),
        IdView::Text(s) => s,
    }
}

/// The element id of a logged packet: `"<origin>-<id>"`.
pub open spec fn svelte_id(id: IdView, source: RequestType) -> Seq<char> {
    origin_word(source) + seq!['-'] + id_text(id)
}

/// A packet the client sent and a packet the server sent never share an
/// element id, whatever their ids.
pub proof fn lemma_origins_never_collide(a: IdView, b: IdView)
    ensures
        svelte_id(a, RequestType::Client) != svelte_id(b, RequestType::Server),
{
    reveal_strlit("client");
    reveal_strlit("server");
    assert(svelte_id(a, RequestType::Client)[0] == 'c');
    assert(svelte_id(b, RequestType::Server)[0] == 's');
}

/// Two packets of the same origin whose ids are of the same kind (both
/// numbers, or both texts) share an element id only when their ids are equal.
pub proof fn lemma_same_origin_ids_distinct(a: IdView, b: IdView, source: RequestType)
    requires
        (a is Number) == (b is Number),
        svelte_id(a, source) == svelte_id(b, source),
    ensures
        a == b,
{
    let prefix = origin_word(source) + seq!['-'];
    assert(svelte_id(a, source).skip(prefix.len() as int) =~= id_text(a));
    assert(svelte_id(b, source).skip(prefix.len() as int) =~= id_text(b));
    match (a, b) {
        (IdView::Number(x), IdView::Number(y)) => {
            lemma_int_decimal_injective(x as int, y as int);
        },
        _ => {},
    }
}

/// Builds the element id `"client-<id>"` or `"server-<id>"` under which the
/// user interface lists a packet.
pub fn create_legit_svelte_id(id: &Id, source: RequestType) -> (r: String)
    ensures
        r@ == svelte_id(id@, source),
{
    let mut out: Vec<char> = Vec::new();
    match source {
        RequestType::Client => push_str_chars(&mut out, "client"),
        RequestType::Server => push_str_chars(&mut out, "server"),
    }
    out.push('-');
    match id {
        Id::NumberId(n) => {
            if *n < 0 {
                out.push('-');
                let m: u64 = if *n == i64::MIN {
                    9223372036854775808u64
                } else {
                    (-*n) as u64
                };
                push_nat_decimal(&mut out, m);
            } else {
                push_nat_decimal(&mut out, *n as u64);
            }
        },
        Id::StringId(s) => {
            let cs = chars_of(s.as_str());
            push_chars(&mut out, &cs);
        },
    }
    assert(out@ =~= svelte_id(id@, source));
    string_from_chars(out.as_slice())
}

} // verus!

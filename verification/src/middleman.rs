//! The proxy between an MCP client and an MCP server: how the real server is
//! reached, and what the proxy reports to the inspector about each request,
//! response and notification it relays.
//!
//! Reports are posted to `http://127.0.0.1:13579/<path>/<connection id>`,
//! where the connection id is the one the inspector handed out when the
//! connection's initialization started; without that id nothing is reported.
use vstd::prelude::*;
use crate::common_structs::{
    json_rpc_version, ConnectionInitializeFinishRequest, Id, MCPDataPacket, MCPError, MCPNotification, MCPRequest,
    MCPResponse, McpServerTransport,
};
use crate::conversions::{convert_text_to_error_data, INTERNAL_ERROR};
use crate::text::{chars_of, push_chars, push_str_chars, string_from_chars};

verus! {

/// How the real MCP server is reached.
#[derive(Debug, PartialEq, Eq)]
pub enum McpClient {
    Stdio(McpStdioClient),
    Http(McpHttpClient),
}

impl McpClient {
    /// The transport this client uses.
    pub fn transport(&self) -> (r: McpServerTransport)
        ensures
            self is Stdio ==> r == McpServerTransport::Stdio,
            self is Http ==> r == McpServerTransport::Http,
    {
        match self {
            McpClient::Stdio(_) => McpServerTransport::Stdio,
            McpClient::Http(_) => McpServerTransport::Http,
        }
    }
}

/// A server spawned as a child process and spoken to over its standard streams.
#[derive(Debug, PartialEq, Eq)]
pub struct McpStdioClient {
    cmd: String,
    args: Vec<String>,
}

impl McpStdioClient {
    /// The command that starts the server.
    pub closed spec fn spec_cmd(&self) -> String {
        self.cmd
    }

    /// The arguments passed to the command.
    pub closed spec fn spec_args(&self) -> Seq<String> {
        self.args@
    }

    /// A client that runs `cmd` with `args`.
    pub fn new(cmd: String, args: Vec<String>) -> (r: McpStdioClient)
        ensures
            r.spec_cmd() == cmd,
            r.spec_args() == args@,
    {
        McpStdioClient { cmd, args }
    }

    /// The command that starts the server.
    pub fn cmd(&self) -> (r: &String)
        ensures
            *r == self.spec_cmd(),
    {
        &self.cmd
    }

    /// The arguments passed to the command.
    pub fn args(&self) -> (r: &Vec<String>)
        ensures
            r@ == self.spec_args(),
    {
        &self.args
    }
}

/// A server reached over streamable HTTP.
#[derive(Debug, PartialEq, Eq)]
pub struct McpHttpClient {
    url: String,
}

impl McpHttpClient {
    /// The server's URL.
    pub closed spec fn spec_url(&self) -> String {
        self.url
    }

    /// A client for the server at `url`.
    pub fn new(url: String) -> (r: McpHttpClient)
        ensures
            r.spec_url() == url,
    {
        McpHttpClient { url }
    }

    /// The server's URL.
    pub fn url(&self) -> (r: &String)
        ensures
            *r == self.spec_url(),
    {
        &self.url
    }
}

/// The inspector's address.
pub open spec fn shimmy_server() -> Seq<char> {
    "http://127.0.0.1:13579"@
}

/// Where reports of kind `path` for connection `id` are posted.
pub open spec fn report_url(path: Seq<char>, id: Seq<char>) -> Seq<char> {
    shimmy_server() + seq!['/'] + path + seq!['/'] + id
}

/// A post to make to the inspector.
#[derive(Debug, PartialEq, Eq)]
pub struct Delivery {
    pub url: String,
    pub packet: MCPDataPacket,
}

/// `d` reports request `id` of `method` with `params` at `url`.
pub open spec fn request_report(
    d: Delivery,
    url: Seq<char>,
    id: Id,
    method: Seq<char>,
    params: Option<String>,
) -> bool {
    &&& d.url@ == url
    &&& d.packet matches MCPDataPacket::Request(req)
    &&& req.jsonrpc@ == json_rpc_version()
    &&& req.id == id
    &&& req.method@ == method
    &&& req.params == params
}

/// `d` reports the successful answer `result` to request `id` at `url`.
pub open spec fn success_report(d: Delivery, url: Seq<char>, id: Id, result: String) -> bool {
    &&& d.url@ == url
    &&& d.packet matches MCPDataPacket::Response(MCPResponse::Success { jsonrpc, id: rid, result: res })
    &&& jsonrpc@ == json_rpc_version()
    &&& rid == id
    &&& res == result
}

/// `d` reports the failed answer `error` to request `id` at `url`.
pub open spec fn failure_report(d: Delivery, url: Seq<char>, id: Id, error: MCPError) -> bool {
    &&& d.url@ == url
    &&& d.packet matches MCPDataPacket::Response(MCPResponse::Fail { jsonrpc, id: rid, error: e })
    &&& jsonrpc@ == json_rpc_version()
    &&& rid == id
    &&& e == error
}

/// `d` reports a notification of `method` with `params` at `url`.
pub open spec fn notification_report(
    d: Delivery,
    url: Seq<char>,
    method: Seq<char>,
    params: Option<String>,
) -> bool {
    &&& d.url@ == url
    &&& d.packet matches MCPDataPacket::Notification(n)
    &&& n.jsonrpc@ == json_rpc_version()
    &&& n.method@ == method
    &&& n.params == params
}

/// The body and address of the post that finishes a connection's initialization.
#[derive(Debug, PartialEq, Eq)]
pub struct FinishDelivery {
    pub url: String,
    pub body: ConnectionInitializeFinishRequest,
}

/// The requests the proxy relays.
#[derive(Clone, Copy, Debug, PartialEq, Eq, Structural)]
pub enum ProxiedCall {
    Initialize,
    ListTools,
    CallTool,
    ListResources,
    ListResourceTemplates,
    Subscribe,
    Unsubscribe,
    Complete,
    SetLevel,
    ReadResource,
    ListPrompts,
    Ping,
    GetPrompt,
    ServerPing,
    CreateElicitation,
    CreateMessage,
    ListRoots,
}

impl ProxiedCall {
    /// The JSON-RPC method of the call.
    pub open spec fn spec_method(self) -> Seq<char> {
        match self {
            ProxiedCall::Initialize => "initialize"@,
            ProxiedCall::ListTools => "tools/list"@,
            ProxiedCall::CallTool => "tools/call"@,
            ProxiedCall::ListResources => "resources/list"@,
            ProxiedCall::ListResourceTemplates => "resources/templates/list"@,
            ProxiedCall::Subscribe => "resources/subscribe"@,
            ProxiedCall::Unsubscribe => "resources/unsubscribe"@,
            ProxiedCall::Complete => "completion/complete"@,
            ProxiedCall::SetLevel => "logging/setLevel"@,
            ProxiedCall::ReadResource => "resources/read"@,
            ProxiedCall::ListPrompts => "prompts/list"@,
            ProxiedCall::Ping => "ping"@,
            ProxiedCall::GetPrompt => "prompts/get"@,
            ProxiedCall::ServerPing => "ping"@,
            ProxiedCall::CreateElicitation => "elicitation/create"@,
            ProxiedCall::CreateMessage => "sampling/createMessage"@,
            ProxiedCall::ListRoots => "roots/list"@,
        }
    }

    /// The call is one the server makes of the client.
    pub open spec fn from_server(self) -> bool {
        self is ServerPing || self is CreateElicitation || self is CreateMessage || self is ListRoots
    }

    /// Where the request is reported.
    pub open spec fn spec_request_path(self) -> Seq<char> {
        if self.from_server() {
            "server/request"@
        } else {
            "client/request"@
        }
    }

    /// Where the answer is reported.
    pub open spec fn spec_response_path(self) -> Seq<char> {
        if self.from_server() {
            "client/response"@
        } else {
            "server/response"@
        }
    }

    /// The JSON-RPC method of the call.
    pub fn method(&self) -> (r: String)
        ensures
            r@ == self.spec_method(),
    {
        match self {
            ProxiedCall::Initialize => String::from_str("initialize"),
            ProxiedCall::ListTools => String::from_str("tools/list"),
            ProxiedCall::CallTool => String::from_str("tools/call"),
            ProxiedCall::ListResources => String::from_str("resources/list"),
            ProxiedCall::ListResourceTemplates => String::from_str("resources/templates/list"),
            ProxiedCall::Subscribe => String::from_str("resources/subscribe"),
            ProxiedCall::Unsubscribe => String::from_str("resources/unsubscribe"),
            ProxiedCall::Complete => String::from_str("completion/complete"),
            ProxiedCall::SetLevel => String::from_str("logging/setLevel"),
            ProxiedCall::ReadResource => String::from_str("resources/read"),
            ProxiedCall::ListPrompts => String::from_str("prompts/list"),
            ProxiedCall::Ping => String::from_str("ping"),
            ProxiedCall::GetPrompt => String::from_str("prompts/get"),
            ProxiedCall::ServerPing => String::from_str("ping"),
            ProxiedCall::CreateElicitation => String::from_str("elicitation/create"),
            ProxiedCall::CreateMessage => String::from_str("sampling/createMessage"),
            ProxiedCall::ListRoots => String::from_str("roots/list"),
        }
    }

    fn is_from_server(&self) -> (b: bool)
        ensures
            b == self.from_server(),
    {
        match self {
            ProxiedCall::ServerPing | ProxiedCall::CreateElicitation | ProxiedCall::CreateMessage
            | ProxiedCall::ListRoots => true,
            _ => false,
        }
    }

    /// Where the request is reported.
    pub fn request_path(&self) -> (r: &'static str)
        ensures
            r@ == self.spec_request_path(),
    {
        if self.is_from_server() {
            "server/request"
        } else {
            "client/request"
        }
    }

    /// Whether the answer to this call is checked for its kind before it is
    /// relayed.
    pub fn checks_reply_kind(&self) -> (b: bool)
        ensures
            b == reply_kind_checked(*self),
    {
        match self {
            ProxiedCall::Ping | ProxiedCall::ServerPing | ProxiedCall::CreateElicitation => true,
            _ => false,
        }
    }

    /// Where the answer is reported.
    pub fn response_path(&self) -> (r: &'static str)
        ensures
            r@ == self.spec_response_path(),
    {
        if self.is_from_server() {
            "client/response"
        } else {
            "server/response"
        }
    }
}

/// A call is reported as a server request exactly when the server makes it
/// (a ping from the server, an elicitation, a sampling request, a request
/// for the client's roots), and as a client request otherwise.
pub proof fn lemma_request_side_is_caller(call: ProxiedCall)
    ensures
        call.from_server() ==> call.spec_request_path() == "server/request"@,
        !call.from_server() ==> call.spec_request_path() == "client/request"@,
        call.from_server() <==> (call is ServerPing || call is CreateElicitation || call is CreateMessage
            || call is ListRoots),
{
}

/// The answer to a call is reported on the side opposite its request: a call
/// reported as a server request has its answer reported as a client
/// response, and a call reported as a client request has its answer reported
/// as a server response.
pub proof fn lemma_answer_side_opposite_request(call: ProxiedCall)
    ensures
        call.spec_request_path() == "server/request"@ || call.spec_request_path() == "client/request"@,
        call.spec_request_path() == "server/request"@ <==> call.spec_response_path() == "client/response"@,
        call.spec_request_path() == "client/request"@ <==> call.spec_response_path() == "server/response"@,
{
    reveal_strlit("server/request");
    reveal_strlit("client/request");
    reveal_strlit("client/response");
    reveal_strlit("server/response");
    assert("server/request"@ != "client/request"@) by {
        assert("server/request"@[0] != "client/request"@[0]);
    }
    assert("client/response"@ != "server/response"@) by {
        assert("client/response"@[0] != "server/response"@[0]);
    }
}

/// The notifications the proxy relays.
#[derive(Clone, Copy, Debug, PartialEq, Eq, Structural)]
pub enum ProxiedNotification {
    Initialized,
    Cancelled,
    Progress,
    RootsListChanged,
    ToolListChanged,
    ServerCancelled,
}

impl ProxiedNotification {
    /// The JSON-RPC method of the notification.
    pub open spec fn spec_method(self) -> Seq<char> {
        match self {
            ProxiedNotification::Initialized => "notifications/initialized"@,
            ProxiedNotification::Cancelled => "notifications/cancelled"@,
            ProxiedNotification::Progress => "notifications/progress"@,
            ProxiedNotification::RootsListChanged => "notifications/roots/list_changed"@,
            ProxiedNotification::ToolListChanged => "notifications/tools/list_changed"@,
            ProxiedNotification::ServerCancelled => "notifications/cancelled"@,
        }
    }

    /// Where the notification is reported.
    pub open spec fn spec_path(self) -> Seq<char> {
        if self is ToolListChanged || self is ServerCancelled {
            "server/notification"@
        } else {
            "client/notification"@
        }
    }

    /// The JSON-RPC method of the notification.
    pub fn method(&self) -> (r: String)
        ensures
            r@ == self.spec_method(),
    {
        match self {
            ProxiedNotification::Initialized => String::from_str("notifications/initialized"),
            ProxiedNotification::Cancelled => String::from_str("notifications/cancelled"),
            ProxiedNotification::Progress => String::from_str("notifications/progress"),
            ProxiedNotification::RootsListChanged => String::from_str(
                "notifications/roots/list_changed",
            ),
            ProxiedNotification::ToolListChanged => String::from_str(
                "notifications/tools/list_changed",
            ),
            ProxiedNotification::ServerCancelled => String::from_str("notifications/cancelled"),
        }
    }

    /// Where the notification is reported.
    pub fn path(&self) -> (r: &'static str)
        ensures
            r@ == self.spec_path(),
    {
        match self {
            ProxiedNotification::ToolListChanged | ProxiedNotification::ServerCancelled => {
                "server/notification"
            },
            _ => "client/notification",
        }
    }
}

/// The message of the error raised when a relayed call is made before the
/// other side's service is up.
pub open spec fn service_not_ready_message() -> Seq<char> {
    "Failed trying to use service before it's initialized"@
}

/// The error raised when a relayed call is made before the other side's
/// service is up.
pub fn service_not_ready() -> (e: MCPError)
    ensures
        e.code == INTERNAL_ERROR,
        e.message@ == service_not_ready_message(),
        e.data is None,
{
    convert_text_to_error_data(
        INTERNAL_ERROR,
        String::from_str("Failed trying to use service before it's initialized"),
    )
}

/// The calls whose answer is checked for its kind before it is relayed.
pub open spec fn reply_kind_checked(call: ProxiedCall) -> bool {
    call is Ping || call is ServerPing || call is CreateElicitation
}

/// The message of the error raised when `call` is answered with a reply of
/// the wrong kind.
pub open spec fn unexpected_reply_message(call: ProxiedCall) -> Seq<char> {
    if call is CreateElicitation {
        "Expect elicitation result, but got something else"@
    } else {
        "Expect ping response, but got something else"@
    }
}

/// The error raised when `call` is answered with a reply of the wrong kind.
pub fn unexpected_reply(call: ProxiedCall) -> (e: MCPError)
    requires
        reply_kind_checked(call),
    ensures
        e.code == INTERNAL_ERROR,
        e.message@ == unexpected_reply_message(call),
        e.data is None,
{
    let message = match call {
        ProxiedCall::CreateElicitation => String::from_str(
            "Expect elicitation result, but got something else",
        ),
        _ => String::from_str("Expect ping response, but got something else"),
    };
    convert_text_to_error_data(INTERNAL_ERROR, message)
}

/// `r` is the successful response to request `id` carrying `result`.
pub open spec fn success_response(r: MCPResponse, id: Id, result: String) -> bool {
    r matches MCPResponse::Success { jsonrpc, id: i, result: res } && jsonrpc@ == json_rpc_version()
        && i == id && res == result
}

/// `r` is the failed response to request `id` carrying `error`.
pub open spec fn failure_response(r: MCPResponse, id: Id, error: MCPError) -> bool {
    r matches MCPResponse::Fail { jsonrpc, id: i, error: e } && jsonrpc@ == json_rpc_version() && i
        == id && e == error
}

/// The message of the error raised when the real server, once connected,
/// does not describe itself.
pub open spec fn missing_server_info_message() -> Seq<char> {
    "Failed to fetch server information"@
}

/// How a relayed `initialize` with request id `id` ends, given what
/// connecting to the real server gave: its description together with the
/// description's JSON text, no description, or an error. Returns the reply
/// owed to the client and the response to report to the inspector when the
/// initialization is finished.
pub fn conclude_initialize<T>(id: Id, outcome: Result<Option<(T, String)>, MCPError>) -> (r: (
    Result<T, MCPError>,
    MCPResponse,
))
    ensures
        outcome matches Ok(Some(p)) ==> r.0 == Ok::<T, MCPError>(p.0) && success_response(
            r.1,
            id,
            p.1,
        ),
        outcome matches Ok(None) ==> (r.0 matches Err(e) && e.code == INTERNAL_ERROR && e.message@
            == missing_server_info_message() && e.data is None && failure_response(r.1, id, e)),
        outcome matches Err(e) ==> r.0 == Err::<T, MCPError>(e) && failure_response(r.1, id, e),
{
    match outcome {
        Ok(Some((info, text))) => (Ok(info), MCPResponse::succeed(id, text)),
        Ok(None) => {
            let e = convert_text_to_error_data(
                INTERNAL_ERROR,
                String::from_str("Failed to fetch server information"),
            );
            let reported = e.duplicate();
            (Err(e), MCPResponse::fail(id, reported))
        },
        Err(e) => {
            let reported = e.duplicate();
            (Err(e), MCPResponse::fail(id, reported))
        },
    }
}

/// `report` is what the link with connection id `link_id` posts about the
/// answer to request `id` of kind `call`: nothing without a connection id,
/// else the success or failure response at the call's response path.
pub open spec fn answer_report(
    link_id: Option<String>,
    report: Option<Delivery>,
    call: ProxiedCall,
    id: Id,
    answer: Result<String, MCPError>,
) -> bool {
    match link_id {
        None => report is None,
        Some(i) => report matches Some(d) && match answer {
            Ok(text) => success_report(d, report_url(call.spec_response_path(), i@), id, text),
            Err(e) => failure_report(d, report_url(call.spec_response_path(), i@), id, e),
        },
    }
}

/// `e` is the error raised when `call` is answered with a reply of the wrong
/// kind.
pub open spec fn is_unexpected_reply(e: MCPError, call: ProxiedCall) -> bool {
    e.code == INTERNAL_ERROR && e.message@ == unexpected_reply_message(call) && e.data is None
}

/// The notifications the server sends (a change of its tool list, a
/// cancellation of its own request); the others are sent by the client.
pub open spec fn sent_by_server(kind: ProxiedNotification) -> bool {
    kind is ToolListChanged || kind is ServerCancelled
}

/// A notification is reported under the side that sent it: the server's
/// under `server/notification`, the client's under `client/notification`.
pub proof fn lemma_notification_side_is_sender(kind: ProxiedNotification)
    ensures
        sent_by_server(kind) ==> kind.spec_path() == "server/notification"@,
        !sent_by_server(kind) ==> kind.spec_path() == "client/notification"@,
{
}

/// Two different kinds of relayed notification are never reported alike:
/// they differ in their method or in the side they are reported under.
pub proof fn lemma_notification_reports_distinct(a: ProxiedNotification, b: ProxiedNotification)
    requires
        a != b,
    ensures
        a.spec_method() != b.spec_method() || a.spec_path() != b.spec_path(),
{
    reveal_strlit("notifications/initialized");
    reveal_strlit("notifications/cancelled");
    reveal_strlit("notifications/progress");
    reveal_strlit("notifications/roots/list_changed");
    reveal_strlit("notifications/tools/list_changed");
    reveal_strlit("server/notification");
    reveal_strlit("client/notification");
    assert("server/notification"@[0] != "client/notification"@[0]);
    assert("notifications/initialized"@[14] != "notifications/cancelled"@[14]);
    assert("notifications/initialized"@[14] != "notifications/progress"@[14]);
    assert("notifications/initialized"@[14] != "notifications/roots/list_changed"@[14]);
    assert("notifications/initialized"@[14] != "notifications/tools/list_changed"@[14]);
    assert("notifications/cancelled"@[14] != "notifications/progress"@[14]);
    assert("notifications/cancelled"@[14] != "notifications/roots/list_changed"@[14]);
    assert("notifications/cancelled"@[14] != "notifications/tools/list_changed"@[14]);
    assert("notifications/progress"@[14] != "notifications/roots/list_changed"@[14]);
    assert("notifications/progress"@[14] != "notifications/tools/list_changed"@[14]);
    assert("notifications/roots/list_changed"@[14] != "notifications/tools/list_changed"@[14]);
}

/// The proxy's link to the inspector: the connection id, once the inspector
/// has handed one out. It is set at most once.
#[derive(Debug, PartialEq, Eq)]
pub struct ShimmyClient {
    id: Option<String>,
}

impl ShimmyClient {
    /// The connection id, if the inspector has handed one out.
    pub closed spec fn spec_id(&self) -> Option<String> {
        self.id
    }

    /// A link without a connection id.
    pub fn new() -> (r: ShimmyClient)
        ensures
            r.spec_id() is None,
    {
        ShimmyClient { id: None }
    }

    /// Stores the connection id unless one is already stored; tells whether
    /// it was stored.
    pub fn set_id(&mut self, id: String) -> (stored: bool)
        ensures
            stored == (old(self).spec_id() is None),
            stored ==> final(self).spec_id() == Some(id),
            !stored ==> final(self).spec_id() == old(self).spec_id(),
    {
        if self.id.is_none() {
            self.id = Some(id);
            true
        } else {
            false
        }
    }

    /// The connection id; an internal error when there is none yet.
    pub fn get_id(&self) -> (r: Result<String, MCPError>)
        ensures
            self.spec_id() matches Some(i) ==> r == Ok::<String, MCPError>(i),
            self.spec_id() is None ==> (r matches Err(e) && e.code == INTERNAL_ERROR && e.message@
                == "Missing ID from shimmy server"@ && e.data is None),
    {
        match &self.id {
            Some(i) => Ok(i.clone()),
            None => Err(
                convert_text_to_error_data(
                    INTERNAL_ERROR,
                    String::from_str("Missing ID from shimmy server"),
                ),
            ),
        }
    }

    /// Where reports of kind `path` go; nothing without a connection id.
    pub fn report_url(&self, path: &str) -> (r: Option<String>)
        ensures
            self.spec_id() matches Some(i) ==> (r matches Some(u) && u@ == report_url(path@, i@)),
            self.spec_id() is None ==> r is None,
    {
        match &self.id {
            Some(i) => {
                let mut out: Vec<char> = Vec::new();
                push_str_chars(&mut out, "http://127.0.0.1:13579");
                out.push('/');
                push_str_chars(&mut out, path);
                out.push('/');
                push_str_chars(&mut out, i.as_str());
                assert(out@ =~= report_url(path@, i@));
                Some(string_from_chars(out.as_slice()))
            },
            None => None,
        }
    }

    /// The post reporting `packet` under `path`; nothing without a
    /// connection id.
    pub fn send_to_shimmy_app(&self, path: &str, packet: MCPDataPacket) -> (r: Option<Delivery>)
        ensures
            self.spec_id() matches Some(i) ==> (r matches Some(d) && d.url@ == report_url(path@, i@)
                && d.packet == packet),
            self.spec_id() is None ==> r is None,
    {
        match self.report_url(path) {
            Some(url) => Some(Delivery { url, packet }),
            None => None,
        }
    }

    /// The post reporting a failed `result` as the error response to request
    /// `id`; nothing for a success.
    pub fn pipe_mcp_error_if_any<T>(&self, id: Id, path: &str, result: &Result<T, MCPError>) -> (r: Option<Delivery>)
        ensures
            result is Ok ==> r is None,
            result matches Err(e) ==> (self.spec_id() is None ==> r is None),
            result matches Err(e) ==> (self.spec_id() matches Some(i) ==> (r matches Some(d)
                && failure_report(d, report_url(path@, i@), id, *e))),
    {
        match result {
            Ok(_) => None,
            Err(e) => {
                let response = MCPResponse::fail(id, e.duplicate());
                self.send_to_shimmy_app(path, MCPDataPacket::Response(response))
            },
        }
    }

    /// The report of a relayed request `id` of kind `call` with `params`.
    pub fn log_request(&self, call: ProxiedCall, id: Id, params: Option<String>) -> (r: Option<Delivery>)
        ensures
            self.spec_id() is None ==> r is None,
            self.spec_id() matches Some(i) ==> (r matches Some(d) && request_report(
                d,
                report_url(call.spec_request_path(), i@),
                id,
                call.spec_method(),
                params,
            )),
    {
        let request = MCPRequest::new(id, call.method(), params);
        self.send_to_shimmy_app(call.request_path(), MCPDataPacket::Request(request))
    }

    /// The report of the successful answer `result` (JSON text) to request
    /// `id` of kind `call`.
    pub fn log_response(&self, call: ProxiedCall, id: Id, result: String) -> (r: Option<Delivery>)
        ensures
            self.spec_id() is None ==> r is None,
            self.spec_id() matches Some(i) ==> (r matches Some(d) && success_report(
                d,
                report_url(call.spec_response_path(), i@),
                id,
                result,
            )),
    {
        let response = MCPResponse::succeed(id, result);
        self.send_to_shimmy_app(call.response_path(), MCPDataPacket::Response(response))
    }

    /// The report of a relayed notification with `params`.
    pub fn log_notification(&self, kind: ProxiedNotification, params: Option<String>) -> (r: Option<Delivery>)
        ensures
            self.spec_id() is None ==> r is None,
            self.spec_id() matches Some(i) ==> (r matches Some(d) && notification_report(
                d,
                report_url(kind.spec_path(), i@),
                kind.spec_method(),
                params,
            )),
    {
        let notification = MCPNotification::new(kind.method(), params);
        self.send_to_shimmy_app(kind.path(), MCPDataPacket::Notification(notification))
    }

    /// How a relayed call of kind `call` with request id `id` ends, once its
    /// request has been reported and the other side has answered. `outcome`
    /// is the answer: the reply with its JSON text, a reply of the wrong kind
    /// (`None`, only for the calls whose reply kind is checked), or an error.
    /// Returns what the caller gets (the reply itself, or the error) and the
    /// one report about the answer: its success or failure response.
    pub fn relay_outcome<T>(&self, call: ProxiedCall, id: Id, outcome: Result<Option<(T, String)>, MCPError>) -> (r: (
        Result<T, MCPError>,
        Option<Delivery>,
    ))
        requires
            outcome matches Ok(None) ==> reply_kind_checked(call),
        ensures
            outcome matches Ok(Some(p)) ==> r.0 == Ok::<T, MCPError>(p.0) && answer_report(
                self.spec_id(),
                r.1,
                call,
                id,
                Ok(p.1),
            ),
            outcome matches Ok(None) ==> (r.0 matches Err(e) && is_unexpected_reply(e, call)
                && answer_report(self.spec_id(), r.1, call, id, Err(e))),
            outcome matches Err(e) ==> r.0 == Err::<T, MCPError>(e) && answer_report(
                self.spec_id(),
                r.1,
                call,
                id,
                Err(e),
            ),
    {
        match outcome {
            Ok(Some((reply, text))) => {
                let report = self.log_response(call, id, text);
                (Ok(reply), report)
            },
            Ok(None) => {
                let e = unexpected_reply(call);
                let failed: Result<(), MCPError> = Err(e.duplicate());
                let report = self.pipe_mcp_error_if_any(id, call.response_path(), &failed);
                (Err(e), report)
            },
            Err(e) => {
                let failed: Result<(), MCPError> = Err(e.duplicate());
                let report = self.pipe_mcp_error_if_any(id, call.response_path(), &failed);
                (Err(e), report)
            },
        }
    }

    /// Where the end of the connection is reported; nothing without a
    /// connection id.
    pub fn disconnect_url(&self) -> (r: Option<String>)
        ensures
            self.spec_id() matches Some(i) ==> (r matches Some(u) && u@ == shimmy_server()
                + "/disconnect/"@ + i@),
            self.spec_id() is None ==> r is None,
    {
        match &self.id {
            Some(i) => {
                let mut out: Vec<char> = Vec::new();
                push_str_chars(&mut out, "http://127.0.0.1:13579");
                push_str_chars(&mut out, "/disconnect/");
                push_str_chars(&mut out, i.as_str());
                Some(string_from_chars(out.as_slice()))
            },
            None => None,
        }
    }

    /// The post that starts a connection's initialization: the `initialize`
    /// request, with its parameters, to the inspector's start route.
    pub fn initialize_start(id: Id, params: String) -> (r: Delivery)
        ensures
            request_report(
                r,
                shimmy_server() + "/initialize/start"@,
                id,
                "initialize"@,
                Some(params),
            ),
    {
        let mut out: Vec<char> = Vec::new();
        push_str_chars(&mut out, "http://127.0.0.1:13579");
        push_str_chars(&mut out, "/initialize/start");
        let request = MCPRequest::new(id, String::from_str("initialize"), Some(params));
        Delivery { url: string_from_chars(out.as_slice()), packet: MCPDataPacket::Request(request) }
    }

    /// The post that finishes a connection's initialization with the
    /// server's answer and the transport; an internal error without a
    /// connection id.
    pub fn finish_initialize(&self, response: MCPResponse, transport: McpServerTransport) -> (r: Result<FinishDelivery, MCPError>)
        ensures
            self.spec_id() is None ==> (r matches Err(e) && e.code == INTERNAL_ERROR && e.message@
                == "Missing ID from shimmy server"@ && e.data is None),
            self.spec_id() matches Some(i) ==> (r matches Ok(d) && d.url@ == shimmy_server()
                + "/initialize/finish/"@ + i@ && d.body.response == response && d.body.transport
                == transport),
    {
        let id = self.get_id()?;
        let mut out: Vec<char> = Vec::new();
        push_str_chars(&mut out, "http://127.0.0.1:13579");
        push_str_chars(&mut out, "/initialize/finish/");
        push_str_chars(&mut out, id.as_str());
        Ok(
            FinishDelivery {
                url: string_from_chars(out.as_slice()),
                body: ConnectionInitializeFinishRequest { response, transport },
            },
        )
    }
}

} // verus!

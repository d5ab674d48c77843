//! The inspector's record of proxied traffic and the operations on it: the
//! HTTP routes the proxy posts packets to, the lookups the user interface
//! makes, the timeline, and forgetting a connection.
use vstd::prelude::*;
use crate::clock::{fresh_uuid, is_uuid_v4_text, now_nanos, timestamp_in_range};
use crate::common_structs::{
    Duplicate, Id, IdView, MCPNotification, MCPRequest, MCPResponse, RequestType,
    StampedMcpNotification, StampedMcpRequest, StampedMcpResponse,
};
use crate::logs::{
    collect_notification_entries, collect_request_entries, entry_views,
    lemma_notification_entries_without, lemma_request_entries_without, lemma_sort_by_time,
    lemma_sort_by_time_stable, rows_at, shows_a_request, lemma_request_rows_show_their_responses,
    lemma_request_rows_source, lemma_notification_rows_kind,
    merge_and_sort, notification_entries, request_entries, sort_by_time, time_ordered, EntryView,
    InspectorEntry,
};
use crate::store::{
    inserted, keys_unique, lemma_lookup_without_server, lemma_without_server_twice, lookup, without_server, LogStore,
    StoreEntry,
};
use crate::text::{chars_of, push_chars, push_str_chars, string_from_chars};

verus! {

/// The greeting for `name`.
pub open spec fn greeting(name: Seq<char>) -> Seq<char> {
    "Hello, "@ + name + "! You've been greeted from Rust!"@
}

/// Greets `name`.
pub fn greet(name: &str) -> (r: String)
    ensures
        r@ == greeting(name@),
{
    let mut out: Vec<char> = Vec::new();
    push_str_chars(&mut out, "Hello, ");
    push_str_chars(&mut out, name);
    push_str_chars(&mut out, "! You've been greeted from Rust!");
    string_from_chars(out.as_slice())
}

/// Errors the inspector reports to its user interface.
#[derive(Debug, PartialEq, Eq)]
pub enum ShimmyError {
    Shimmy(String),
}

impl ShimmyError {
    /// The text the error is shown with.
    pub open spec fn spec_text(self) -> Seq<char> {
        match self {
            ShimmyError::Shimmy(m) => "Shimmy Error: "@ + m@,
        }
    }

    /// The text the error is shown with.
    pub fn to_string(&self) -> (r: String)
        ensures
            r@ == self.spec_text(),
    {
        match self {
            ShimmyError::Shimmy(m) => {
                let mut out: Vec<char> = Vec::new();
                push_str_chars(&mut out, "Shimmy Error: ");
                push_str_chars(&mut out, m.as_str());
                string_from_chars(out.as_slice())
            },
        }
    }
}

/// HTTP status of an accepted post.
pub const STATUS_OK: u16 = 200;

/// HTTP status of a rejected post.
pub const STATUS_BAD_REQUEST: u16 = 400;

/// What the user interface is told after a post was recorded.
#[derive(Debug, PartialEq, Eq)]
pub enum UiEvent {
    InitializeStart { server_id: String },
    InitializeFinish { server_id: String, request_id: Id },
    ClientRequest { server_id: String, request_id: Id },
    ServerRequest { server_id: String, request_id: Id },
    ClientResponse { server_id: String, response_id: Id },
    ServerResponse { server_id: String, response_id: Id },
    ClientNotification { server_id: String, notification_id: Id },
    ServerNotification { server_id: String, notification_id: Id },
}

impl UiEvent {
    /// The name under which the event is emitted.
    pub open spec fn event_name(self) -> Seq<char> {
        match self {
            UiEvent::InitializeStart { .. } => "mcp-initialize-start"@,
            UiEvent::InitializeFinish { .. } => "mcp-initialize-finish"@,
            UiEvent::ClientRequest { .. } => "mcp-client-request"@,
            UiEvent::ServerRequest { .. } => "mcp-server-request"@,
            UiEvent::ClientResponse { .. } => "mcp-client-response"@,
            UiEvent::ServerResponse { .. } => "mcp-server-response"@,
            UiEvent::ClientNotification { .. } => "mcp-client-notification"@,
            UiEvent::ServerNotification { .. } => "mcp-server-notification"@,
        }
    }

    /// The name under which the event is emitted.
    pub fn name(&self) -> (r: String)
        ensures
            r@ == self.event_name(),
    {
        match self {
            UiEvent::InitializeStart { .. } => String::from_str("mcp-initialize-start"),
            UiEvent::InitializeFinish { .. } => String::from_str("mcp-initialize-finish"),
            UiEvent::ClientRequest { .. } => String::from_str("mcp-client-request"),
            UiEvent::ServerRequest { .. } => String::from_str("mcp-server-request"),
            UiEvent::ClientResponse { .. } => String::from_str("mcp-client-response"),
            UiEvent::ServerResponse { .. } => String::from_str("mcp-server-response"),
            UiEvent::ClientNotification { .. } => String::from_str("mcp-client-notification"),
            UiEvent::ServerNotification { .. } => String::from_str("mcp-server-notification"),
        }
    }
}

/// The side an event is about: `initialize` for the two steps of a
/// connection's initialization, else the side that sent the packet.
pub open spec fn event_side(e: UiEvent) -> Seq<char> {
    if e is InitializeStart || e is InitializeFinish {
        "initialize"@
    } else if e is ClientRequest || e is ClientResponse || e is ClientNotification {
        "client"@
    } else {
        "server"@
    }
}

/// What an event is about: a step of initialization, or the kind of packet.
pub open spec fn event_subject(e: UiEvent) -> Seq<char> {
    if e is InitializeStart {
        "start"@
    } else if e is InitializeFinish {
        "finish"@
    } else if e is ClientRequest || e is ServerRequest {
        "request"@
    } else if e is ClientResponse || e is ServerResponse {
        "response"@
    } else {
        "notification"@
    }
}

/// An event's name says which side it is about and what it is about:
/// `mcp-<side>-<subject>`.
pub proof fn lemma_event_name_parts(e: UiEvent)
    ensures
        e.event_name() == "mcp-"@ + event_side(e) + "-"@ + event_subject(e),
{
    reveal_strlit("mcp-");
    reveal_strlit("-");
    reveal_strlit("initialize");
    reveal_strlit("client");
    reveal_strlit("server");
    reveal_strlit("start");
    reveal_strlit("finish");
    reveal_strlit("request");
    reveal_strlit("response");
    reveal_strlit("notification");
    reveal_strlit("mcp-initialize-start");
    reveal_strlit("mcp-initialize-finish");
    reveal_strlit("mcp-client-request");
    reveal_strlit("mcp-server-request");
    reveal_strlit("mcp-client-response");
    reveal_strlit("mcp-server-response");
    reveal_strlit("mcp-client-notification");
    reveal_strlit("mcp-server-notification");
    assert(e.event_name() =~= "mcp-"@ + event_side(e) + "-"@ + event_subject(e));
}

/// Events about different sides, or about different things, have different
/// names.
pub proof fn lemma_event_names_distinct(a: UiEvent, b: UiEvent)
    requires
        event_side(a) != event_side(b) || event_subject(a) != event_subject(b),
    ensures
        a.event_name() != b.event_name(),
{
    lemma_event_name_parts(a);
    lemma_event_name_parts(b);
    reveal_strlit("mcp-");
    reveal_strlit("-");
    reveal_strlit("initialize");
    reveal_strlit("client");
    reveal_strlit("server");
    reveal_strlit("start");
    reveal_strlit("finish");
    reveal_strlit("request");
    reveal_strlit("response");
    reveal_strlit("notification");
    if a.event_name() == b.event_name() {
        let na = a.event_name();
        if event_side(a) != event_side(b) {
            assert(na[4] == b.event_name()[4]);
            assert(na[5] == b.event_name()[5]);
            assert(false);
        } else {
            let k: int = 5int + event_side(a).len();
            assert(na.len() == b.event_name().len());
            assert(event_subject(a) =~= na.skip(k));
            assert(event_subject(b) =~= b.event_name().skip(k));
            assert(false);
        }
    }
}

/// The answer to a post: status, body, and the event to emit, if any.
#[derive(Debug, PartialEq, Eq)]
pub struct RouteReply {
    pub status: u16,
    pub body: String,
    pub event: Option<UiEvent>,
}

/// The contents of an [`InspectorStore`].
pub struct InspectorState {
    pub client_requests: Seq<StoreEntry<StampedMcpRequest>>,
    pub server_requests: Seq<StoreEntry<StampedMcpRequest>>,
    pub server_responses: Seq<StoreEntry<StampedMcpResponse>>,
    pub client_responses: Seq<StoreEntry<StampedMcpResponse>>,
    pub client_notifications: Seq<StoreEntry<StampedMcpNotification>>,
    pub server_notifications: Seq<StoreEntry<StampedMcpNotification>>,
}

impl InspectorState {
    /// This state with its `client_requests` log replaced.
    pub open spec fn with_client_requests(self, log: Seq<StoreEntry<StampedMcpRequest>>) -> InspectorState {
        InspectorState { client_requests: log, ..self }
    }

    /// This state with its `server_requests` log replaced.
    pub open spec fn with_server_requests(self, log: Seq<StoreEntry<StampedMcpRequest>>) -> InspectorState {
        InspectorState { server_requests: log, ..self }
    }

    /// This state with its `server_responses` log replaced.
    pub open spec fn with_server_responses(self, log: Seq<StoreEntry<StampedMcpResponse>>) -> InspectorState {
        InspectorState { server_responses: log, ..self }
    }

    /// This state with its `client_responses` log replaced.
    pub open spec fn with_client_responses(self, log: Seq<StoreEntry<StampedMcpResponse>>) -> InspectorState {
        InspectorState { client_responses: log, ..self }
    }

    /// This state with its `client_notifications` log replaced.
    pub open spec fn with_client_notifications(self, log: Seq<StoreEntry<StampedMcpNotification>>) -> InspectorState {
        InspectorState { client_notifications: log, ..self }
    }

    /// This state with its `server_notifications` log replaced.
    pub open spec fn with_server_notifications(self, log: Seq<StoreEntry<StampedMcpNotification>>) -> InspectorState {
        InspectorState { server_notifications: log, ..self }
    }
}

/// Every log of the state has unique keys.
pub open spec fn state_wf(s: InspectorState) -> bool {
    &&& keys_unique(s.client_requests)
    &&& keys_unique(s.server_requests)
    &&& keys_unique(s.server_responses)
    &&& keys_unique(s.client_responses)
    &&& keys_unique(s.client_notifications)
    &&& keys_unique(s.server_notifications)
}

/// The message of a rejected initialization.
pub open spec fn bad_initialize_message(method: Seq<char>) -> Seq<char> {
    "Method should be `initialize` but got "@ + method + " instead"@
}

/// The timeline of connection `sid`: its client requests (with the server's
/// responses), its server requests (with the client's responses), then the
/// client's and the server's notifications, sorted by time.
pub open spec fn logs_spec(s: InspectorState, sid: Seq<char>) -> Seq<EntryView> {
    sort_by_time(timeline_rows(s, sid))
}

/// The rows of connection `sid` before sorting.
pub open spec fn timeline_rows(s: InspectorState, sid: Seq<char>) -> Seq<EntryView> {
    request_entries(s.client_requests, s.server_responses, sid, RequestType::Client)
        + request_entries(s.server_requests, s.client_responses, sid, RequestType::Server)
        + notification_entries(s.client_notifications, sid, RequestType::Client)
        + notification_entries(s.server_notifications, sid, RequestType::Server)
}

/// The timeline is in time order and holds exactly the rows of the
/// connection's requests and notifications; rows recorded at the same time
/// keep the order of the unsorted rows.
pub proof fn lemma_logs_ordered(s: InspectorState, sid: Seq<char>)
    ensures
        time_ordered(logs_spec(s, sid)),
        logs_spec(s, sid).to_multiset() == timeline_rows(s, sid).to_multiset(),
        logs_spec(s, sid).len() == timeline_rows(s, sid).len(),
        forall|t: i128| #[trigger] rows_at(logs_spec(s, sid), t) == rows_at(timeline_rows(s, sid), t),
{
    lemma_sort_by_time(timeline_rows(s, sid));
    assert forall|t: i128| #[trigger] rows_at(logs_spec(s, sid), t) == rows_at(timeline_rows(s, sid), t) by {
        lemma_sort_by_time_stable(timeline_rows(s, sid), t);
    }
}

/// A timeline row of a request shows one of the connection's recorded
/// requests with the response recorded for it: a client's request with the
/// server's response, a server's request with the client's response.
pub open spec fn timeline_row_shows(s: InspectorState, sid: Seq<char>, row: EntryView) -> bool {
    &&& (row.request is Request && row.request_type == RequestType::Client) ==> shows_a_request(
        row,
        s.client_requests,
        s.server_responses,
        sid,
    )
    &&& (row.request is Request && row.request_type == RequestType::Server) ==> shows_a_request(
        row,
        s.server_requests,
        s.client_responses,
        sid,
    )
}

/// Every request row of a connection's timeline carries exactly the response
/// recorded for its request, with the matching status and error output.
pub proof fn lemma_timeline_rows_show_responses(s: InspectorState, sid: Seq<char>)
    ensures
        forall|i: int|
            0 <= i < logs_spec(s, sid).len() ==> #[trigger] timeline_row_shows(s, sid, logs_spec(s, sid)[i]),
{
    broadcast use vstd::seq_lib::group_to_multiset_ensures;

    let a = request_entries(s.client_requests, s.server_responses, sid, RequestType::Client);
    let b = request_entries(s.server_requests, s.client_responses, sid, RequestType::Server);
    let c = notification_entries(s.client_notifications, sid, RequestType::Client);
    let d = notification_entries(s.server_notifications, sid, RequestType::Server);
    let rows = timeline_rows(s, sid);
    lemma_sort_by_time(rows);
    lemma_request_rows_show_their_responses(s.client_requests, s.server_responses, sid, RequestType::Client);
    lemma_request_rows_show_their_responses(s.server_requests, s.client_responses, sid, RequestType::Server);
    lemma_request_rows_source(s.client_requests, s.server_responses, sid, RequestType::Client);
    lemma_request_rows_source(s.server_requests, s.client_responses, sid, RequestType::Server);
    lemma_notification_rows_kind(s.client_notifications, sid, RequestType::Client);
    lemma_notification_rows_kind(s.server_notifications, sid, RequestType::Server);
    assert forall|j: int| 0 <= j < rows.len() implies #[trigger] timeline_row_shows(s, sid, rows[j]) by {
        if j < a.len() {
            assert(rows[j] == a[j]);
        } else if j < a.len() + b.len() {
            assert(rows[j] == b[j - a.len()]);
        } else if j < a.len() + b.len() + c.len() {
            assert(rows[j] == c[j - a.len() - b.len()]);
        } else {
            assert(rows[j] == d[j - a.len() - b.len() - c.len()]);
        }
    }
    let sorted = logs_spec(s, sid);
    assert forall|i: int| 0 <= i < sorted.len() implies #[trigger] timeline_row_shows(s, sid, sorted[i]) by {
        let x = sorted[i];
        assert(sorted.contains(x));
        assert(sorted.to_multiset().count(x) > 0);
        assert(rows.to_multiset().count(x) > 0);
        assert(rows.contains(x));
        let j = choose|j: int| 0 <= j < rows.len() && rows[j] == x;
        assert(timeline_row_shows(s, sid, rows[j]));
    }
}

/// Once a connection is forgotten its timeline is empty.
pub proof fn lemma_delete_clears_logs(s: InspectorState, sid: Seq<char>)
    ensures
        logs_spec(after_delete(s, sid), sid) == Seq::<EntryView>::empty(),
{
    let d = after_delete(s, sid);
    lemma_request_entries_without(s.client_requests, s.server_responses, s.server_responses, sid, sid, RequestType::Client);
    lemma_request_entries_without(s.server_requests, d.client_responses, d.client_responses, sid, sid, RequestType::Server);
    lemma_notification_entries_without(s.client_notifications, sid, sid, RequestType::Client);
    lemma_notification_entries_without(s.server_notifications, sid, sid, RequestType::Server);
    assert(timeline_rows(d, sid) =~= Seq::<EntryView>::empty());
}

/// Forgetting a connection leaves the timeline of every other connection as
/// it was.
pub proof fn lemma_delete_keeps_other_logs(s: InspectorState, sid: Seq<char>, other: Seq<char>)
    requires
        state_wf(s),
        sid != other,
    ensures
        logs_spec(after_delete(s, sid), other) == logs_spec(s, other),
{
    let d = after_delete(s, sid);
    assert forall|k: IdView| lookup(d.client_responses, other, k) == lookup(s.client_responses, other, k) by {
        lemma_lookup_without_server(s.client_responses, sid, other, k);
    }
    lemma_request_entries_without(s.client_requests, s.server_responses, s.server_responses, sid, other, RequestType::Client);
    lemma_request_entries_without(s.server_requests, s.client_responses, d.client_responses, sid, other, RequestType::Server);
    lemma_notification_entries_without(s.client_notifications, sid, other, RequestType::Client);
    lemma_notification_entries_without(s.server_notifications, sid, other, RequestType::Server);
    assert(timeline_rows(d, other) == timeline_rows(s, other));
}

/// Forgetting a connection a second time changes nothing.
pub proof fn lemma_delete_idempotent(s: InspectorState, sid: Seq<char>)
    ensures
        after_delete(after_delete(s, sid), sid) == after_delete(s, sid),
{
    lemma_without_server_twice(s.client_requests, sid);
    lemma_without_server_twice(s.server_requests, sid);
    lemma_without_server_twice(s.client_responses, sid);
    lemma_without_server_twice(s.client_notifications, sid);
    lemma_without_server_twice(s.server_notifications, sid);
}

/// The state once connection `sid` is forgotten. The server responses are
/// kept: they are not among the logs the deletion clears.
pub open spec fn after_delete(s: InspectorState, sid: Seq<char>) -> InspectorState {
    InspectorState {
        client_requests: without_server(s.client_requests, sid),
        server_requests: without_server(s.server_requests, sid),
        server_responses: s.server_responses,
        client_responses: without_server(s.client_responses, sid),
        client_notifications: without_server(s.client_notifications, sid),
        server_notifications: without_server(s.server_notifications, sid),
    }
}

/// The six logs of recorded traffic.
pub struct InspectorStore {
    client_requests: LogStore<StampedMcpRequest>,
    server_requests: LogStore<StampedMcpRequest>,
    server_responses: LogStore<StampedMcpResponse>,
    client_responses: LogStore<StampedMcpResponse>,
    client_notifications: LogStore<StampedMcpNotification>,
    server_notifications: LogStore<StampedMcpNotification>,
}

impl View for InspectorStore {
    type V = InspectorState;

    closed spec fn view(&self) -> InspectorState {
        InspectorState {
            client_requests: self.client_requests@,
            server_requests: self.server_requests@,
            server_responses: self.server_responses@,
            client_responses: self.client_responses@,
            client_notifications: self.client_notifications@,
            server_notifications: self.server_notifications@,
        }
    }
}

fn empty_body() -> (s: String)
    ensures
        s@ == Seq::<char>::empty(),
{
    String::new()
}

fn found_or<V>(found: Option<V>, message: &str) -> (r: Result<V, ShimmyError>)
    ensures
        found matches Some(v) ==> r == Ok::<V, ShimmyError>(v),
        found is None ==> (r matches Err(ShimmyError::Shimmy(m)) && m@ == message@),
{
    match found {
        Some(v) => Ok(v),
        None => Err(ShimmyError::Shimmy(String::from_str(message))),
    }
}

impl InspectorStore {
    /// Every log of the store holds at most one record per key (connection,
    /// id). This holds of every store; calling this makes it known.
    pub fn well_formed(&self)
        ensures
            state_wf(self@),
    {
        self.client_requests.keys_are_unique();
        self.server_requests.keys_are_unique();
        self.server_responses.keys_are_unique();
        self.client_responses.keys_are_unique();
        self.client_notifications.keys_are_unique();
        self.server_notifications.keys_are_unique();
    }

    /// An empty record.
    pub fn new() -> (r: InspectorStore)
        ensures
            r@.client_requests.len() == 0,
            r@.server_requests.len() == 0,
            r@.server_responses.len() == 0,
            r@.client_responses.len() == 0,
            r@.client_notifications.len() == 0,
            r@.server_notifications.len() == 0,
            state_wf(r@),
    {
        InspectorStore {
            client_requests: LogStore::new(),
            server_requests: LogStore::new(),
            server_responses: LogStore::new(),
            client_responses: LogStore::new(),
            client_notifications: LogStore::new(),
            server_notifications: LogStore::new(),
        }
    }

    // -----------------------------------------------------------------------
    // Routes

    /// Records the start of a connection's initialization under `server_id`.
    /// Only an `initialize` request is accepted; it is answered with the
    /// connection's id.
    pub fn record_initialize_start(&mut self, server_id: String, timestamp: i128, payload: MCPRequest) -> (r: RouteReply)
        ensures
            state_wf(final(self)@),
            payload.method@ == "initialize"@ ==> {
                &&& r.status == STATUS_OK
                &&& r.body == server_id
                &&& r.event == Some((UiEvent::InitializeStart { server_id }))
                &&& inserted(
                    old(self)@.client_requests,
                    final(self)@.client_requests,
                    server_id,
                    payload.id,
                    (StampedMcpRequest { request: payload, timestamp }),
                )
                &&& final(self)@ == old(self)@.with_client_requests(final(self)@.client_requests)
            },
            payload.method@ != "initialize"@ ==> {
                &&& r.status == STATUS_BAD_REQUEST
                &&& r.body@ == bad_initialize_message(payload.method@)
                &&& r.event is None
                &&& final(self)@ == old(self)@
            },
    {
        self.well_formed();
        let expected = String::from_str("initialize");
        if !(payload.method == expected) {
            let mut msg: Vec<char> = Vec::new();
            push_str_chars(&mut msg, "Method should be `initialize` but got ");
            let m = chars_of(payload.method.as_str());
            push_chars(&mut msg, &m);
            push_str_chars(&mut msg, " instead");
            assert(msg@ =~= bad_initialize_message(payload.method@));
            return RouteReply {
                status: STATUS_BAD_REQUEST,
                body: string_from_chars(msg.as_slice()),
                event: None,
            };
        }
        let key = payload.id.duplicate();
        let body = server_id.clone();
        let event_id = server_id.clone();
        self.client_requests.insert(server_id, key, StampedMcpRequest { request: payload, timestamp });
        RouteReply {
            status: STATUS_OK,
            body,
            event: Some(UiEvent::InitializeStart { server_id: event_id }),
        }
    }

    /// Starts a connection's initialization: an `initialize` request is
    /// recorded, now, under a fresh random connection id, which the reply
    /// carries; any other request is refused and nothing is recorded.
    pub fn mcp_initialize_start(&mut self, payload: MCPRequest) -> (r: RouteReply)
        ensures
            state_wf(final(self)@),
            payload.method@ == "initialize"@ ==> {
                &&& r.status == STATUS_OK
                &&& is_uuid_v4_text(r.body@)
                &&& r.event == Some((UiEvent::InitializeStart { server_id: r.body }))
                &&& (exists|t: i128|
                    timestamp_in_range(t as int) && #[trigger] inserted(
                        old(self)@.client_requests,
                        final(self)@.client_requests,
                        r.body,
                        payload.id,
                        (StampedMcpRequest { request: payload, timestamp: t }),
                    ))
                &&& final(self)@ == old(self)@.with_client_requests(final(self)@.client_requests)
            },
            payload.method@ != "initialize"@ ==> {
                &&& r.status == STATUS_BAD_REQUEST
                &&& r.body@ == bad_initialize_message(payload.method@)
                &&& r.event is None
                &&& final(self)@ == old(self)@
            },
    {
        let id = fresh_uuid();
        let timestamp = now_nanos();
        self.record_initialize_start(id, timestamp, payload)
    }

    /// Records the end of a connection's initialization: a successful
    /// response is kept as the server's response to the request it answers;
    /// a failed one is refused.
    pub fn record_initialize_finish(&mut self, server_id: String, timestamp: i128, payload: MCPResponse) -> (r: RouteReply)
        ensures
            state_wf(final(self)@),
            payload is Success ==> {
                &&& r.status == STATUS_OK
                &&& r.body@.len() == 0
                &&& r.event == Some(
                    UiEvent::InitializeFinish { server_id, request_id: payload.response_id() },
                )
                &&& inserted(
                    old(self)@.server_responses,
                    final(self)@.server_responses,
                    server_id,
                    payload.response_id(),
                    (StampedMcpResponse { response: payload, timestamp }),
                )
                &&& final(self)@ == old(self)@.with_server_responses(final(self)@.server_responses)
            },
            payload is Fail ==> {
                &&& r.status == STATUS_BAD_REQUEST
                &&& r.body@.len() == 0
                &&& r.event is None
                &&& final(self)@ == old(self)@
            },
    {
        self.well_formed();
        match &payload {
            MCPResponse::Success { id, .. } => {
                let key = id.duplicate();
                let request_id = id.duplicate();
                let event_id = server_id.clone();
                self.server_responses.insert(
                    server_id,
                    key,
                    StampedMcpResponse { response: payload, timestamp },
                );
                RouteReply {
                    status: STATUS_OK,
                    body: empty_body(),
                    event: Some(UiEvent::InitializeFinish { server_id: event_id, request_id }),
                }
            },
            MCPResponse::Fail { .. } => RouteReply {
                status: STATUS_BAD_REQUEST,
                body: empty_body(),
                event: None,
            },
        }
    }

    /// [`Self::record_initialize_finish`] at the current time.
    pub fn mcp_initialize_finish(&mut self, server_id: String, payload: MCPResponse) -> (r: RouteReply)
        ensures
            state_wf(final(self)@),
            payload is Success ==> {
                &&& r.status == STATUS_OK
                &&& r.body@.len() == 0
                &&& r.event == Some(
                    UiEvent::InitializeFinish { server_id, request_id: payload.response_id() },
                )
                &&& (exists|t: i128|
                    timestamp_in_range(t as int) && #[trigger] inserted(
                        old(self)@.server_responses,
                        final(self)@.server_responses,
                        server_id,
                        payload.response_id(),
                        (StampedMcpResponse { response: payload, timestamp: t }),
                    ))
                &&& final(self)@ == old(self)@.with_server_responses(final(self)@.server_responses)
            },
            payload is Fail ==> {
                &&& r.status == STATUS_BAD_REQUEST
                &&& r.body@.len() == 0
                &&& r.event is None
                &&& final(self)@ == old(self)@
            },
    {
        let timestamp = now_nanos();
        self.record_initialize_finish(server_id, timestamp, payload)
    }

    /// Records a request the client sent on connection `server_id`.
    pub fn record_client_request(&mut self, server_id: String, timestamp: i128, payload: MCPRequest) -> (r: RouteReply)
        ensures
            state_wf(final(self)@),
            r.status == STATUS_OK,
            r.body@.len() == 0,
            r.event == Some((UiEvent::ClientRequest { server_id, request_id: payload.id })),
            inserted(
                old(self)@.client_requests,
                final(self)@.client_requests,
                server_id,
                payload.id,
                (StampedMcpRequest { request: payload, timestamp }),
            ),
            final(self)@ == old(self)@.with_client_requests(final(self)@.client_requests),
    {
        self.well_formed();
        let key = payload.id.duplicate();
        let request_id = payload.id.duplicate();
        let event_id = server_id.clone();
        self.client_requests.insert(server_id, key, StampedMcpRequest { request: payload, timestamp });
        self.well_formed();
        RouteReply {
            status: STATUS_OK,
            body: empty_body(),
            event: Some(UiEvent::ClientRequest { server_id: event_id, request_id }),
        }
    }

    /// Records, now, a request the client sent on connection `server_id`.
    pub fn client_mcp_request(&mut self, server_id: String, payload: MCPRequest) -> (r: RouteReply)
        ensures
            state_wf(final(self)@),
            r.status == STATUS_OK,
            r.body@.len() == 0,
            r.event == Some((UiEvent::ClientRequest { server_id, request_id: payload.id })),
            (exists|t: i128|
                timestamp_in_range(t as int) && #[trigger] inserted(
                    old(self)@.client_requests,
                    final(self)@.client_requests,
                    server_id,
                    payload.id,
                    (StampedMcpRequest { request: payload, timestamp: t }),
                )),
            final(self)@ == old(self)@.with_client_requests(final(self)@.client_requests),
    {
        let timestamp = now_nanos();
        self.record_client_request(server_id, timestamp, payload)
    }

    /// Records a request the server sent on connection `server_id`.
    pub fn record_server_request(&mut self, server_id: String, timestamp: i128, payload: MCPRequest) -> (r: RouteReply)
        ensures
            state_wf(final(self)@),
            r.status == STATUS_OK,
            r.body@.len() == 0,
            r.event == Some((UiEvent::ServerRequest { server_id, request_id: payload.id })),
            inserted(
                old(self)@.server_requests,
                final(self)@.server_requests,
                server_id,
                payload.id,
                (StampedMcpRequest { request: payload, timestamp }),
            ),
            final(self)@ == old(self)@.with_server_requests(final(self)@.server_requests),
    {
        self.well_formed();
        let key = payload.id.duplicate();
        let request_id = payload.id.duplicate();
        let event_id = server_id.clone();
        self.server_requests.insert(server_id, key, StampedMcpRequest { request: payload, timestamp });
        self.well_formed();
        RouteReply {
            status: STATUS_OK,
            body: empty_body(),
            event: Some(UiEvent::ServerRequest { server_id: event_id, request_id }),
        }
    }

    /// Records, now, a request the server sent on connection `server_id`.
    pub fn server_mcp_request(&mut self, server_id: String, payload: MCPRequest) -> (r: RouteReply)
        ensures
            state_wf(final(self)@),
            r.status == STATUS_OK,
            r.body@.len() == 0,
            r.event == Some((UiEvent::ServerRequest { server_id, request_id: payload.id })),
            (exists|t: i128|
                timestamp_in_range(t as int) && #[trigger] inserted(
                    old(self)@.server_requests,
                    final(self)@.server_requests,
                    server_id,
                    payload.id,
                    (StampedMcpRequest { request: payload, timestamp: t }),
                )),
            final(self)@ == old(self)@.with_server_requests(final(self)@.server_requests),
    {
        let timestamp = now_nanos();
        self.record_server_request(server_id, timestamp, payload)
    }

    /// Records a response the client sent on connection `server_id`, under the
    /// id of the request it answers.
    pub fn record_client_response(&mut self, server_id: String, timestamp: i128, payload: MCPResponse) -> (r: RouteReply)
        ensures
            state_wf(final(self)@),
            r.status == STATUS_OK,
            r.body@.len() == 0,
            r.event == Some((UiEvent::ClientResponse { server_id, response_id: payload.response_id() })),
            inserted(
                old(self)@.client_responses,
                final(self)@.client_responses,
                server_id,
                payload.response_id(),
                (StampedMcpResponse { response: payload, timestamp }),
            ),
            final(self)@ == old(self)@.with_client_responses(final(self)@.client_responses),
    {
        self.well_formed();
        let key = payload.id().duplicate();
        let response_id = payload.id().duplicate();
        let event_id = server_id.clone();
        self.client_responses.insert(server_id, key, StampedMcpResponse { response: payload, timestamp });
        self.well_formed();
        RouteReply {
            status: STATUS_OK,
            body: empty_body(),
            event: Some(UiEvent::ClientResponse { server_id: event_id, response_id }),
        }
    }

    /// Records, now, a response the client sent on connection `server_id`.
    pub fn client_mcp_response(&mut self, server_id: String, payload: MCPResponse) -> (r: RouteReply)
        ensures
            state_wf(final(self)@),
            r.status == STATUS_OK,
            r.body@.len() == 0,
            r.event == Some((UiEvent::ClientResponse { server_id, response_id: payload.response_id() })),
            (exists|t: i128|
                timestamp_in_range(t as int) && #[trigger] inserted(
                    old(self)@.client_responses,
                    final(self)@.client_responses,
                    server_id,
                    payload.response_id(),
                    (StampedMcpResponse { response: payload, timestamp: t }),
                )),
            final(self)@ == old(self)@.with_client_responses(final(self)@.client_responses),
    {
        let timestamp = now_nanos();
        self.record_client_response(server_id, timestamp, payload)
    }

    /// Records a response the server sent on connection `server_id`, under the
    /// id of the request it answers.
    pub fn record_server_response(&mut self, server_id: String, timestamp: i128, payload: MCPResponse) -> (r: RouteReply)
        ensures
            state_wf(final(self)@),
            r.status == STATUS_OK,
            r.body@.len() == 0,
            r.event == Some((UiEvent::ServerResponse { server_id, response_id: payload.response_id() })),
            inserted(
                old(self)@.server_responses,
                final(self)@.server_responses,
                server_id,
                payload.response_id(),
                (StampedMcpResponse { response: payload, timestamp }),
            ),
            final(self)@ == old(self)@.with_server_responses(final(self)@.server_responses),
    {
        self.well_formed();
        let key = payload.id().duplicate();
        let response_id = payload.id().duplicate();
        let event_id = server_id.clone();
        self.server_responses.insert(server_id, key, StampedMcpResponse { response: payload, timestamp });
        self.well_formed();
        RouteReply {
            status: STATUS_OK,
            body: empty_body(),
            event: Some(UiEvent::ServerResponse { server_id: event_id, response_id }),
        }
    }

    /// Records, now, a response the server sent on connection `server_id`.
    pub fn server_mcp_response(&mut self, server_id: String, payload: MCPResponse) -> (r: RouteReply)
        ensures
            state_wf(final(self)@),
            r.status == STATUS_OK,
            r.body@.len() == 0,
            r.event == Some((UiEvent::ServerResponse { server_id, response_id: payload.response_id() })),
            (exists|t: i128|
                timestamp_in_range(t as int) && #[trigger] inserted(
                    old(self)@.server_responses,
                    final(self)@.server_responses,
                    server_id,
                    payload.response_id(),
                    (StampedMcpResponse { response: payload, timestamp: t }),
                )),
            final(self)@ == old(self)@.with_server_responses(final(self)@.server_responses),
    {
        let timestamp = now_nanos();
        self.record_server_response(server_id, timestamp, payload)
    }

    /// Records a notification the client sent on connection `server_id`, under
    /// the string id `notification_id`.
    pub fn record_client_notification(
        &mut self,
        server_id: String,
        notification_id: String,
        timestamp: i128,
        payload: MCPNotification,
    ) -> (r: RouteReply)
        ensures
            state_wf(final(self)@),
            r.status == STATUS_OK,
            r.body@.len() == 0,
            r.event == Some(
                UiEvent::ClientNotification { server_id, notification_id: Id::StringId(notification_id) },
            ),
            inserted(
                old(self)@.client_notifications,
                final(self)@.client_notifications,
                server_id,
                Id::StringId(notification_id),
                (StampedMcpNotification { notification: payload, timestamp }),
            ),
            final(self)@ == old(self)@.with_client_notifications(final(self)@.client_notifications),
    {
        self.well_formed();
        let key = Id::StringId(notification_id.clone());
        let event_id = server_id.clone();
        self.client_notifications.insert(
            server_id,
            key,
            StampedMcpNotification { notification: payload, timestamp },
        );
        self.well_formed();
        RouteReply {
            status: STATUS_OK,
            body: empty_body(),
            event: Some(
                UiEvent::ClientNotification { server_id: event_id, notification_id: Id::StringId(notification_id) },
            ),
        }
    }

    /// Records, now, a notification the client sent on connection `server_id`, under a fresh random id.
    pub fn client_mcp_notification(&mut self, server_id: String, payload: MCPNotification) -> (r: RouteReply)
        ensures
            state_wf(final(self)@),
            r.status == STATUS_OK,
            r.body@.len() == 0,
            r.event matches Some((UiEvent::ClientNotification { server_id: s, notification_id: Id::StringId(n) }))
                && s == server_id && is_uuid_v4_text(n@) && exists|t: i128|
                timestamp_in_range(t as int) && #[trigger] inserted(
                    old(self)@.client_notifications,
                    final(self)@.client_notifications,
                    server_id,
                    Id::StringId(n),
                    (StampedMcpNotification { notification: payload, timestamp: t }),
                ),
            final(self)@ == old(self)@.with_client_notifications(final(self)@.client_notifications),
    {
        let notification_id = fresh_uuid();
        let timestamp = now_nanos();
        self.record_client_notification(server_id, notification_id, timestamp, payload)
    }

    /// Records a notification the server sent on connection `server_id`, under
    /// the string id `notification_id`.
    pub fn record_server_notification(
        &mut self,
        server_id: String,
        notification_id: String,
        timestamp: i128,
        payload: MCPNotification,
    ) -> (r: RouteReply)
        ensures
            state_wf(final(self)@),
            r.status == STATUS_OK,
            r.body@.len() == 0,
            r.event == Some(
                UiEvent::ServerNotification { server_id, notification_id: Id::StringId(notification_id) },
            ),
            inserted(
                old(self)@.server_notifications,
                final(self)@.server_notifications,
                server_id,
                Id::StringId(notification_id),
                (StampedMcpNotification { notification: payload, timestamp }),
            ),
            final(self)@ == old(self)@.with_server_notifications(final(self)@.server_notifications),
    {
        self.well_formed();
        let key = Id::StringId(notification_id.clone());
        let event_id = server_id.clone();
        self.server_notifications.insert(
            server_id,
            key,
            StampedMcpNotification { notification: payload, timestamp },
        );
        self.well_formed();
        RouteReply {
            status: STATUS_OK,
            body: empty_body(),
            event: Some(
                UiEvent::ServerNotification { server_id: event_id, notification_id: Id::StringId(notification_id) },
            ),
        }
    }

    /// Records, now, a notification the server sent on connection `server_id`, under a fresh random id.
    pub fn server_mcp_notification(&mut self, server_id: String, payload: MCPNotification) -> (r: RouteReply)
        ensures
            state_wf(final(self)@),
            r.status == STATUS_OK,
            r.body@.len() == 0,
            r.event matches Some((UiEvent::ServerNotification { server_id: s, notification_id: Id::StringId(n) }))
                && s == server_id && is_uuid_v4_text(n@) && exists|t: i128|
                timestamp_in_range(t as int) && #[trigger] inserted(
                    old(self)@.server_notifications,
                    final(self)@.server_notifications,
                    server_id,
                    Id::StringId(n),
                    (StampedMcpNotification { notification: payload, timestamp: t }),
                ),
            final(self)@ == old(self)@.with_server_notifications(final(self)@.server_notifications),
    {
        let notification_id = fresh_uuid();
        let timestamp = now_nanos();
        self.record_server_notification(server_id, notification_id, timestamp, payload)
    }

    /// The client request recorded under `(server_id, request_id)`; an error when there is none.
    pub fn get_mcp_client_request(&self, server_id: String, request_id: Id) -> (r: Result<StampedMcpRequest, ShimmyError>)
        ensures
            lookup(self@.client_requests, server_id@, request_id@) matches Some(v) ==> r == Ok::<StampedMcpRequest, ShimmyError>(v),
            lookup(self@.client_requests, server_id@, request_id@) is None ==> (r matches Err(ShimmyError::Shimmy(m)) && m@ == "Failed to find mcp request"@),
    {
        let found = self.client_requests.get(&server_id, &request_id);
        found_or(found, "Failed to find mcp request")
    }

    /// The server request recorded under `(server_id, request_id)`; an error when there is none.
    pub fn get_mcp_server_request(&self, server_id: String, request_id: Id) -> (r: Result<StampedMcpRequest, ShimmyError>)
        ensures
            lookup(self@.server_requests, server_id@, request_id@) matches Some(v) ==> r == Ok::<StampedMcpRequest, ShimmyError>(v),
            lookup(self@.server_requests, server_id@, request_id@) is None ==> (r matches Err(ShimmyError::Shimmy(m)) && m@ == "Failed to find mcp request"@),
    {
        let found = self.server_requests.get(&server_id, &request_id);
        found_or(found, "Failed to find mcp request")
    }

    /// The server response recorded under `(server_id, response_id)`; an error when there is none.
    pub fn get_mcp_server_response(&self, server_id: String, response_id: Id) -> (r: Result<StampedMcpResponse, ShimmyError>)
        ensures
            lookup(self@.server_responses, server_id@, response_id@) matches Some(v) ==> r == Ok::<StampedMcpResponse, ShimmyError>(v),
            lookup(self@.server_responses, server_id@, response_id@) is None ==> (r matches Err(ShimmyError::Shimmy(m)) && m@ == "Failed to find mcp response"@),
    {
        let found = self.server_responses.get(&server_id, &response_id);
        found_or(found, "Failed to find mcp response")
    }

    /// The client response recorded under `(server_id, response_id)`; an error when there is none.
    pub fn get_mcp_client_response(&self, server_id: String, response_id: Id) -> (r: Result<StampedMcpResponse, ShimmyError>)
        ensures
            lookup(self@.client_responses, server_id@, response_id@) matches Some(v) ==> r == Ok::<StampedMcpResponse, ShimmyError>(v),
            lookup(self@.client_responses, server_id@, response_id@) is None ==> (r matches Err(ShimmyError::Shimmy(m)) && m@ == "Failed to find mcp response"@),
    {
        let found = self.client_responses.get(&server_id, &response_id);
        found_or(found, "Failed to find mcp response")
    }

    /// The client notification recorded under `(server_id, notification_id)`; an error when there is none.
    pub fn get_mcp_client_notification(&self, server_id: String, notification_id: Id) -> (r: Result<StampedMcpNotification, ShimmyError>)
        ensures
            lookup(self@.client_notifications, server_id@, notification_id@) matches Some(v) ==> r == Ok::<StampedMcpNotification, ShimmyError>(v),
            lookup(self@.client_notifications, server_id@, notification_id@) is None ==> (r matches Err(ShimmyError::Shimmy(m)) && m@ == "Failed to find mcp notification"@),
    {
        let found = self.client_notifications.get(&server_id, &notification_id);
        found_or(found, "Failed to find mcp notification")
    }

    /// The server notification recorded under `(server_id, notification_id)`; an error when there is none.
    pub fn get_mcp_server_notification(&self, server_id: String, notification_id: Id) -> (r: Result<StampedMcpNotification, ShimmyError>)
        ensures
            lookup(self@.server_notifications, server_id@, notification_id@) matches Some(v) ==> r == Ok::<StampedMcpNotification, ShimmyError>(v),
            lookup(self@.server_notifications, server_id@, notification_id@) is None ==> (r matches Err(ShimmyError::Shimmy(m)) && m@ == "Failed to find mcp notification"@),
    {
        let found = self.server_notifications.get(&server_id, &notification_id);
        found_or(found, "Failed to find mcp notification")
    }

    /// The timeline of connection `server_id` (see [`logs_spec`]).
    pub fn get_mcp_logs(&self, server_id: String) -> (r: Result<Vec<InspectorEntry>, ShimmyError>)
        ensures
            r matches Ok(entries) && entry_views(entries@) == logs_spec(self@, server_id@),
    {
        self.well_formed();
        let a = collect_request_entries(
            &self.client_requests,
            &self.server_responses,
            &server_id,
            RequestType::Client,
        );
        let b = collect_request_entries(
            &self.server_requests,
            &self.client_responses,
            &server_id,
            RequestType::Server,
        );
        let c = collect_notification_entries(
            &self.client_notifications,
            &server_id,
            RequestType::Client,
        );
        let d = collect_notification_entries(
            &self.server_notifications,
            &server_id,
            RequestType::Server,
        );
        Ok(merge_and_sort(a, b, c, d))
    }

    /// Forgets connection `server_id`: its requests, client responses and
    /// notifications are dropped. Its server responses stay.
    pub fn delete_connection_data(&mut self, server_id: String) -> (r: Result<(), ShimmyError>)
        ensures
            r is Ok,
            state_wf(final(self)@),
            final(self)@ == after_delete(old(self)@, server_id@),
    {
        let ghost before = self@;
        self.client_requests.retain_other_servers(&server_id);
        self.server_requests.retain_other_servers(&server_id);
        self.client_responses.retain_other_servers(&server_id);
        self.server_requests.retain_other_servers(&server_id);
        self.client_notifications.retain_other_servers(&server_id);
        self.server_notifications.retain_other_servers(&server_id);
        proof {
            lemma_without_server_twice(before.server_requests, server_id@);
        }
        self.well_formed();
        Ok(())
    }
}

} // verus!

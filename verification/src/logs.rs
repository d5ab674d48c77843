//! The inspector's timeline: one entry per recorded request (joined with the
//! response it got, if any) and per recorded notification, in time order.
use vstd::prelude::*;
use crate::common_structs::{
    create_legit_svelte_id, svelte_id, Duplicate, Id, IdView, LogStatus, MCPDataPacket,
    MCPResponse, RequestType, StampedMcpNotification, StampedMcpRequest, StampedMcpResponse,
};
use crate::store::{lemma_without_server_push, lookup, keys_unique, without_server, LogStore, StoreEntry};

verus! {

/// One row of the timeline.
#[derive(Debug, PartialEq, Eq)]
pub struct InspectorEntry {
    /// Element id: `"client-<id>"` or `"server-<id>"`.
    pub id: String,
    /// When the packet was recorded (nanoseconds since the epoch).
    pub timestamp: i128,
    pub method: String,
    pub status: LogStatus,
    /// The request or notification.
    pub request: MCPDataPacket,
    pub request_type: RequestType,
    pub response: Option<MCPResponse>,
    /// The error message of a failed response.
    pub stderr: Option<String>,
}

/// The value of an [`InspectorEntry`], with its element id as characters.
pub struct EntryView {
    pub id: Seq<char>,
    pub timestamp: i128,
    pub method: String,
    pub status: LogStatus,
    pub request: MCPDataPacket,
    pub request_type: RequestType,
    pub response: Option<MCPResponse>,
    pub stderr: Option<String>,
}

impl View for InspectorEntry {
    type V = EntryView;

    open spec fn view(&self) -> EntryView {
        EntryView {
            id: self.id@,
            timestamp: self.timestamp,
            method: self.method,
            status: self.status,
            request: self.request,
            request_type: self.request_type,
            response: self.response,
            stderr: self.stderr,
        }
    }
}

/// The views of a sequence of entries.
pub open spec fn entry_views(s: Seq<InspectorEntry>) -> Seq<EntryView> {
    s.map_values(|e: InspectorEntry| e@)
}

/// The status shown for a request, given the response it got.
pub open spec fn response_status(resp: Option<StampedMcpResponse>) -> LogStatus {
    match resp {
        None => LogStatus::Pending,
        Some(r) => match r.response {
            MCPResponse::Success { .. } => LogStatus::Success,
            MCPResponse::Fail { .. } => LogStatus::Error,
        },
    }
}

/// The error message of a failed response.
pub open spec fn response_stderr(resp: Option<StampedMcpResponse>) -> Option<String> {
    match resp {
        Some(r) => match r.response {
            MCPResponse::Fail { error, .. } => Some(error.message),
            MCPResponse::Success { .. } => None,
        },
        None => None,
    }
}

/// The timeline row of a recorded request, given the response it got.
pub open spec fn request_entry(
    req: StampedMcpRequest,
    resp: Option<StampedMcpResponse>,
    source: RequestType,
) -> EntryView {
    EntryView {
        id: svelte_id(req.request.id@, source),
        timestamp: req.timestamp,
        method: req.request.method,
        status: response_status(resp),
        request: MCPDataPacket::Request(req.request),
        request_type: source,
        response: match resp {
            Some(r) => Some(r.response),
            None => None,
        },
        stderr: response_stderr(resp),
    }
}

/// The timeline row of a recorded notification.
pub open spec fn notification_entry(
    notification_id: Id,
    n: StampedMcpNotification,
    source: RequestType,
) -> EntryView {
    EntryView {
        id: svelte_id(notification_id@, source),
        timestamp: n.timestamp,
        method: n.notification.method,
        status: LogStatus::Notification,
        request: MCPDataPacket::Notification(n.notification),
        request_type: source,
        response: None,
        stderr: None,
    }
}

/// Rows for the requests of connection `sid`, in store order, each joined
/// with the response recorded under the same connection and request id.
pub open spec fn request_entries(
    requests: Seq<StoreEntry<StampedMcpRequest>>,
    responses: Seq<StoreEntry<StampedMcpResponse>>,
    sid: Seq<char>,
    source: RequestType,
) -> Seq<EntryView>
    decreases requests.len(),
{
    if requests.len() == 0 {
        seq![]
    } else {
        let rest = request_entries(requests.drop_last(), responses, sid, source);
        let e = requests.last();
        if e.server_id@ == sid {
            rest.push(
                request_entry(e.value, lookup(responses, sid, e.value.request.id@), source),
            )
        } else {
            rest
        }
    }
}

/// `row` shows request `req` together with `stored`, the response recorded
/// for it, if any: the row carries exactly that response; its status is
/// `Success` or `Error` as the response succeeded or failed, `Pending` when
/// there is none; a failure's message is shown as the row's error output.
pub open spec fn row_shows(row: EntryView, req: StampedMcpRequest, stored: Option<StampedMcpResponse>) -> bool {
    &&& row.request == MCPDataPacket::Request(req.request)
    &&& row.timestamp == req.timestamp
    &&& row.method == req.request.method
    &&& (stored is None ==> row.response is None)
    &&& (stored matches Some(r) ==> row.response == Some(r.response))
    &&& ((row.status == LogStatus::Pending) <==> row.response is None)
    &&& ((row.status == LogStatus::Success) <==> (row.response matches Some(
        MCPResponse::Success { .. },
    )))
    &&& ((row.status == LogStatus::Error) <==> (row.response matches Some(MCPResponse::Fail { .. })))
    &&& (row.response matches Some(MCPResponse::Fail { error, .. }) ==> row.stderr == Some(
        error.message,
    ))
    &&& (!(row.response matches Some(MCPResponse::Fail { .. })) ==> row.stderr is None)
}

/// `row` shows one of the requests recorded for connection `sid`, with the
/// response recorded under the same connection and request id.
pub open spec fn shows_a_request(
    row: EntryView,
    requests: Seq<StoreEntry<StampedMcpRequest>>,
    responses: Seq<StoreEntry<StampedMcpResponse>>,
    sid: Seq<char>,
) -> bool {
    exists|k: int|
        0 <= k < requests.len() && requests[k].server_id@ == sid && #[trigger] row_shows(
            row,
            requests[k].value,
            lookup(responses, sid, requests[k].value.request.id@),
        )
}

/// Every request row of connection `sid` shows one of the connection's
/// recorded requests with the response recorded under the same connection
/// and request id.
pub proof fn lemma_request_rows_show_their_responses(
    requests: Seq<StoreEntry<StampedMcpRequest>>,
    responses: Seq<StoreEntry<StampedMcpResponse>>,
    sid: Seq<char>,
    source: RequestType,
)
    ensures
        forall|i: int|
            0 <= i < request_entries(requests, responses, sid, source).len() ==> #[trigger] shows_a_request(
                request_entries(requests, responses, sid, source)[i],
                requests,
                responses,
                sid,
            ),
    decreases requests.len(),
{
    if requests.len() > 0 {
        let d = requests.drop_last();
        let e = requests.last();
        lemma_request_rows_show_their_responses(d, responses, sid, source);
        let rest = request_entries(d, responses, sid, source);
        let rows = request_entries(requests, responses, sid, source);
        assert forall|i: int| 0 <= i < rows.len() implies #[trigger] shows_a_request(
            rows[i],
            requests,
            responses,
            sid,
        ) by {
            if i < rest.len() {
                assert(shows_a_request(rest[i], d, responses, sid));
                let k = choose|k: int|
                    0 <= k < d.len() && d[k].server_id@ == sid && #[trigger] row_shows(
                        rest[i],
                        d[k].value,
                        lookup(responses, sid, d[k].value.request.id@),
                    );
                assert(requests[k] == d[k]);
                assert(rows[i] == rest[i]);
                assert(row_shows(rows[i], requests[k].value, lookup(responses, sid, requests[k].value.request.id@)));
            } else {
                let k = requests.len() - 1;
                assert(requests[k] == e);
                assert(rows[i] == request_entry(e.value, lookup(responses, sid, e.value.request.id@), source));
                assert(row_shows(rows[i], requests[k].value, lookup(responses, sid, requests[k].value.request.id@)));
            }
        }
    }
}

/// Rows for the notifications of connection `sid`, in store order.
pub open spec fn notification_entries(
    notifications: Seq<StoreEntry<StampedMcpNotification>>,
    sid: Seq<char>,
    source: RequestType,
) -> Seq<EntryView>
    decreases notifications.len(),
{
    if notifications.len() == 0 {
        seq![]
    } else {
        let rest = notification_entries(notifications.drop_last(), sid, source);
        let e = notifications.last();
        if e.server_id@ == sid {
            rest.push(notification_entry(e.key, e.value, source))
        } else {
            rest
        }
    }
}

/// Request rows are marked with the side that sent the request.
pub proof fn lemma_request_rows_source(
    requests: Seq<StoreEntry<StampedMcpRequest>>,
    responses: Seq<StoreEntry<StampedMcpResponse>>,
    sid: Seq<char>,
    source: RequestType,
)
    ensures
        forall|i: int|
            0 <= i < request_entries(requests, responses, sid, source).len() ==> (#[trigger] request_entries(
                requests,
                responses,
                sid,
                source,
            )[i]).request_type == source && request_entries(requests, responses, sid, source)[i].request is Request,
    decreases requests.len(),
{
    if requests.len() > 0 {
        lemma_request_rows_source(requests.drop_last(), responses, sid, source);
    }
}

/// Notification rows show notifications.
pub proof fn lemma_notification_rows_kind(
    notifications: Seq<StoreEntry<StampedMcpNotification>>,
    sid: Seq<char>,
    source: RequestType,
)
    ensures
        forall|i: int|
            0 <= i < notification_entries(notifications, sid, source).len() ==> (#[trigger] notification_entries(
                notifications,
                sid,
                source,
            )[i]).request is Notification,
    decreases notifications.len(),
{
    if notifications.len() > 0 {
        lemma_notification_rows_kind(notifications.drop_last(), sid, source);
    }
}


/// Rows of another connection do not depend on the entries of a forgotten
/// one, as long as the responses they are joined with are the same.
pub proof fn lemma_request_entries_without(
    requests: Seq<StoreEntry<StampedMcpRequest>>,
    responses: Seq<StoreEntry<StampedMcpResponse>>,
    responses2: Seq<StoreEntry<StampedMcpResponse>>,
    forgotten: Seq<char>,
    sid: Seq<char>,
    source: RequestType,
)
    requires
        forall|k: IdView| lookup(responses2, sid, k) == lookup(responses, sid, k),
    ensures
        forgotten != sid ==> request_entries(without_server(requests, forgotten), responses2, sid, source)
            == request_entries(requests, responses, sid, source),
        request_entries(without_server(requests, sid), responses2, sid, source) == Seq::<EntryView>::empty(),
    decreases requests.len(),
{
    if requests.len() == 0 {
        assert(without_server(requests, forgotten) =~= requests) by {
            reveal(Seq::filter);
        }
        assert(without_server(requests, sid) =~= requests) by {
            reveal(Seq::filter);
        }
    } else {
        let r = requests.drop_last();
        let e = requests.last();
        lemma_request_entries_without(r, responses, responses2, forgotten, sid, source);
        lemma_without_server_push(requests, forgotten);
        lemma_without_server_push(requests, sid);
        let f = without_server(r, forgotten);
        assert(f.push(e).drop_last() =~= f);
        let g = without_server(r, sid);
        assert(g.push(e).drop_last() =~= g);
    }
}

/// Notification rows of another connection do not depend on the entries of a
/// forgotten one.
pub proof fn lemma_notification_entries_without(
    notifications: Seq<StoreEntry<StampedMcpNotification>>,
    forgotten: Seq<char>,
    sid: Seq<char>,
    source: RequestType,
)
    ensures
        forgotten != sid ==> notification_entries(without_server(notifications, forgotten), sid, source)
            == notification_entries(notifications, sid, source),
        notification_entries(without_server(notifications, sid), sid, source) == Seq::<EntryView>::empty(),
    decreases notifications.len(),
{
    if notifications.len() == 0 {
        assert(without_server(notifications, forgotten) =~= notifications) by {
            reveal(Seq::filter);
        }
        assert(without_server(notifications, sid) =~= notifications) by {
            reveal(Seq::filter);
        }
    } else {
        let r = notifications.drop_last();
        let e = notifications.last();
        lemma_notification_entries_without(r, forgotten, sid, source);
        lemma_without_server_push(notifications, forgotten);
        lemma_without_server_push(notifications, sid);
        let f = without_server(r, forgotten);
        assert(f.push(e).drop_last() =~= f);
        let g = without_server(r, sid);
        assert(g.push(e).drop_last() =~= g);
    }
}

// ---------------------------------------------------------------------------
// Stable sorting by timestamp

/// Inserts `x` into `sorted` after every row whose timestamp is not later.
pub open spec fn insert_by_time(sorted: Seq<EntryView>, x: EntryView) -> Seq<EntryView>
    decreases sorted.len(),
{
    if sorted.len() == 0 {
        seq![x]
    } else if sorted.last().timestamp <= x.timestamp {
        sorted.push(x)
    } else {
        insert_by_time(sorted.drop_last(), x).push(sorted.last())
    }
}

/// `s` sorted by timestamp; rows with equal timestamps keep their order.
pub open spec fn sort_by_time(s: Seq<EntryView>) -> Seq<EntryView>
    decreases s.len(),
{
    if s.len() == 0 {
        s
    } else {
        insert_by_time(sort_by_time(s.drop_last()), s.last())
    }
}

/// Timestamps never decrease along `s`.
pub open spec fn time_ordered(s: Seq<EntryView>) -> bool {
    forall|i: int, j: int| 0 <= i <= j < s.len() ==> #[trigger] s[i].timestamp <= #[trigger] s[j].timestamp
}

/// Where `insert_by_time` puts `x`: the position after the last row of `s`
/// that is not later than `x`.
proof fn lemma_insert_by_time_at(s: Seq<EntryView>, x: EntryView, p: int)
    requires
        0 <= p <= s.len(),
        p == 0 || s[p - 1].timestamp <= x.timestamp,
        forall|m: int| p <= m < s.len() ==> #[trigger] s[m].timestamp > x.timestamp,
    ensures
        insert_by_time(s, x) == s.insert(p, x),
    decreases s.len(),
{
    if s.len() == 0 {
        assert(s.insert(p, x) =~= seq![x]);
    } else if p == s.len() {
        assert(s.insert(p, x) =~= s.push(x));
    } else {
        assert(s.last().timestamp > x.timestamp);
        lemma_insert_by_time_at(s.drop_last(), x, p);
        assert(s.insert(p, x) =~= s.drop_last().insert(p, x).push(s.last()));
    }
}

proof fn lemma_insert_by_time_ordered(s: Seq<EntryView>, x: EntryView)
    requires
        time_ordered(s),
    ensures
        time_ordered(insert_by_time(s, x)),
        insert_by_time(s, x).to_multiset() == s.to_multiset().insert(x),
    decreases s.len(),
{
    broadcast use vstd::seq_lib::group_to_multiset_ensures;

    if s.len() == 0 {
        assert(seq![x] =~= Seq::<EntryView>::empty().push(x));
    } else if s.last().timestamp <= x.timestamp {
    } else {
        let r = insert_by_time(s.drop_last(), x);
        assert(time_ordered(s.drop_last()));
        lemma_insert_by_time_ordered(s.drop_last(), x);
        lemma_insert_by_time_members(s.drop_last(), x);
        assert(s.drop_last().push(s.last()) =~= s);
        assert forall|i: int, j: int| 0 <= i <= j < r.len() + 1 implies #[trigger] r.push(
            s.last(),
        )[i].timestamp <= #[trigger] r.push(s.last())[j].timestamp by {
            if j == r.len() && i < r.len() {
                let v = r[i];
                assert(r.contains(v));
                if v != x {
                    assert(s.drop_last().contains(v));
                    let k = choose|k: int| 0 <= k < s.drop_last().len() && s.drop_last()[k] == v;
                    assert(s[k] == v);
                }
            }
        }
    }
}

proof fn lemma_insert_by_time_members(s: Seq<EntryView>, x: EntryView)
    ensures
        forall|v: EntryView| #[trigger] insert_by_time(s, x).contains(v) ==> v == x || s.contains(v),
        insert_by_time(s, x).len() == s.len() + 1,
    decreases s.len(),
{
    if s.len() == 0 {
    } else if s.last().timestamp <= x.timestamp {
        assert forall|v: EntryView| #[trigger] s.push(x).contains(v) implies v == x || s.contains(v) by {
            let k = choose|k: int| 0 <= k < s.push(x).len() && s.push(x)[k] == v;
            if k < s.len() {
                assert(s[k] == v);
            }
        }
    } else {
        lemma_insert_by_time_members(s.drop_last(), x);
        let r = insert_by_time(s.drop_last(), x);
        assert forall|v: EntryView| #[trigger] r.push(s.last()).contains(v) implies v == x
            || s.contains(v) by {
            let k = choose|k: int| 0 <= k < r.push(s.last()).len() && r.push(s.last())[k] == v;
            if k < r.len() {
                assert(r.contains(v));
                if v != x {
                    let q = choose|q: int| 0 <= q < s.drop_last().len() && s.drop_last()[q] == v;
                    assert(s[q] == v);
                }
            } else {
                assert(s[s.len() - 1] == v);
            }
        }
    }
}

/// Rows of `s` stamped `t`, in their order in `s`.
pub open spec fn rows_at(s: Seq<EntryView>, t: i128) -> Seq<EntryView> {
    s.filter(|e: EntryView| e.timestamp == t)
}

proof fn lemma_rows_at_push(s: Seq<EntryView>, x: EntryView, t: i128)
    ensures
        rows_at(s.push(x), t) == if x.timestamp == t {
            rows_at(s, t).push(x)
        } else {
            rows_at(s, t)
        },
{
    reveal(Seq::filter);
    assert(s.push(x).drop_last() =~= s);
}

proof fn lemma_insert_by_time_rows_at(s: Seq<EntryView>, x: EntryView, t: i128)
    ensures
        rows_at(insert_by_time(s, x), t) == if x.timestamp == t {
            rows_at(s, t).push(x)
        } else {
            rows_at(s, t)
        },
    decreases s.len(),
{
    if s.len() == 0 {
        assert(seq![x] =~= s.push(x));
        lemma_rows_at_push(s, x, t);
    } else if s.last().timestamp <= x.timestamp {
        lemma_rows_at_push(s, x, t);
    } else {
        let d = s.drop_last();
        let l = s.last();
        lemma_insert_by_time_rows_at(d, x, t);
        lemma_rows_at_push(insert_by_time(d, x), l, t);
        lemma_rows_at_push(d, l, t);
        assert(d.push(l) =~= s);
    }
}

/// Sorting by time is stable: for every timestamp, the rows stamped with it
/// come out in the order they went in.
pub proof fn lemma_sort_by_time_stable(s: Seq<EntryView>, t: i128)
    ensures
        rows_at(sort_by_time(s), t) == rows_at(s, t),
    decreases s.len(),
{
    if s.len() > 0 {
        let d = s.drop_last();
        lemma_sort_by_time_stable(d, t);
        lemma_insert_by_time_rows_at(sort_by_time(d), s.last(), t);
        lemma_rows_at_push(d, s.last(), t);
        assert(d.push(s.last()) =~= s);
    }
}

proof fn lemma_rows_at_empty(t: i128)
    ensures
        rows_at(Seq::<EntryView>::empty(), t) == Seq::<EntryView>::empty(),
{
    reveal(Seq::filter);
}

/// The last row of a nonempty sequence is among its rows at its own time,
/// which are then not empty.
proof fn lemma_rows_at_last(u: Seq<EntryView>)
    requires
        u.len() > 0,
    ensures
        rows_at(u, u.last().timestamp) == rows_at(u.drop_last(), u.last().timestamp).push(u.last()),
        rows_at(u, u.last().timestamp).len() > 0,
{
    lemma_rows_at_push(u.drop_last(), u.last(), u.last().timestamp);
    assert(u.drop_last().push(u.last()) =~= u);
}

/// A row found at time `t` in `u` is a row of `u`, at a time not after the
/// last row's when `u` is in time order.
proof fn lemma_rows_at_member(u: Seq<EntryView>, t: i128, x: EntryView)
    requires
        time_ordered(u),
        u.len() > 0,
        rows_at(u, t).contains(x),
    ensures
        x.timestamp <= u.last().timestamp,
{
    u.lemma_filter_contains_rev(|e: EntryView| e.timestamp == t, x);
    let k = choose|k: int| 0 <= k < u.len() && u[k] == x;
    assert(u[k].timestamp <= u[u.len() - 1].timestamp);
}

/// Two sequences in time order that hold, at every timestamp, the same rows
/// in the same order are equal.
pub proof fn lemma_time_ordered_unique(u: Seq<EntryView>, v: Seq<EntryView>)
    requires
        time_ordered(u),
        time_ordered(v),
        forall|t: i128| #[trigger] rows_at(u, t) == rows_at(v, t),
    ensures
        u == v,
    decreases u.len(),
{
    if u.len() == 0 && v.len() == 0 {
        assert(u =~= v);
    } else if u.len() == 0 {
        lemma_rows_at_last(v);
        lemma_rows_at_empty(v.last().timestamp);
        assert(rows_at(u, v.last().timestamp) == rows_at(v, v.last().timestamp));
    } else if v.len() == 0 {
        lemma_rows_at_last(u);
        lemma_rows_at_empty(u.last().timestamp);
        assert(rows_at(u, u.last().timestamp) == rows_at(v, u.last().timestamp));
    } else {
        let x = u.last();
        let y = v.last();
        let ud = u.drop_last();
        let vd = v.drop_last();
        lemma_rows_at_last(u);
        lemma_rows_at_last(v);
        let rx = rows_at(u, x.timestamp);
        let ry = rows_at(v, y.timestamp);
        assert(rx[rx.len() - 1] == x);
        assert(rx.contains(x));
        assert(rows_at(v, x.timestamp) == rx);
        lemma_rows_at_member(v, x.timestamp, x);
        assert(ry[ry.len() - 1] == y);
        assert(ry.contains(y));
        assert(rows_at(u, y.timestamp) == ry);
        lemma_rows_at_member(u, y.timestamp, y);
        assert(x.timestamp == y.timestamp);
        assert(x == y);
        assert forall|t: i128| #[trigger] rows_at(ud, t) == rows_at(vd, t) by {
            lemma_rows_at_push(ud, x, t);
            lemma_rows_at_push(vd, x, t);
            assert(ud.push(x) =~= u);
            assert(vd.push(x) =~= v);
            assert(rows_at(u, t) == rows_at(v, t));
            if x.timestamp == t {
                assert(rows_at(ud, t) =~= rows_at(u, t).drop_last());
                assert(rows_at(vd, t) =~= rows_at(v, t).drop_last());
            }
        }
        assert(time_ordered(ud));
        assert(time_ordered(vd));
        lemma_time_ordered_unique(ud, vd);
        assert(ud.push(x) =~= u);
        assert(vd.push(x) =~= v);
    }
}

/// Sorting by time orders the rows by timestamp and keeps every row.
pub proof fn lemma_sort_by_time(s: Seq<EntryView>)
    ensures
        time_ordered(sort_by_time(s)),
        sort_by_time(s).to_multiset() == s.to_multiset(),
        sort_by_time(s).len() == s.len(),
    decreases s.len(),
{
    broadcast use vstd::seq_lib::group_to_multiset_ensures;

    if s.len() > 0 {
        lemma_sort_by_time(s.drop_last());
        lemma_insert_by_time_ordered(sort_by_time(s.drop_last()), s.last());
        lemma_insert_by_time_members(sort_by_time(s.drop_last()), s.last());
        assert(s.drop_last().push(s.last()) =~= s);
    }
}

/// What sorting by time gives, said directly: the one sequence in time
/// order that holds, at every timestamp, the rows of `s` stamped with it in
/// their order in `s`.
pub proof fn lemma_sort_by_time_is_the_stable_sort(s: Seq<EntryView>, u: Seq<EntryView>)
    requires
        time_ordered(u),
        forall|t: i128| #[trigger] rows_at(u, t) == rows_at(s, t),
    ensures
        u == sort_by_time(s),
{
    lemma_sort_by_time(s);
    assert forall|t: i128| #[trigger] rows_at(u, t) == rows_at(sort_by_time(s), t) by {
        lemma_sort_by_time_stable(s, t);
    }
    lemma_time_ordered_unique(u, sort_by_time(s));
}

/// Sorts `entries` by timestamp; entries with equal timestamps keep their order.
fn sort_entries_by_time(entries: Vec<InspectorEntry>) -> (r: Vec<InspectorEntry>)
    ensures
        entry_views(r@) == sort_by_time(entry_views(entries@)),
{
    let mut sorted: Vec<InspectorEntry> = Vec::new();
    let mut rest = entries;
    let ghost all = entry_views(entries@);
    let ghost n = entries@.len();
    assert(all.take(0) =~= Seq::<EntryView>::empty());
    while rest.len() > 0
        invariant
            n == all.len(),
            rest@.len() <= n,
            entry_views(sorted@) == sort_by_time(all.take(n - rest@.len())),
            forall|m: int| 0 <= m < rest@.len() ==> #[trigger] rest@[m]@ == all[n - rest@.len() + m],
        decreases rest@.len(),
    {
        let ghost done = n - rest@.len();
        let x = rest.remove(0);
        let ghost xv = x@;
        assert(xv == all[done]);
        proof {
            lemma_sort_by_time(all.take(done));
        }
        let ghost sv = entry_views(sorted@);
        let mut p = sorted.len();
        while p > 0 && sorted[p - 1].timestamp > x.timestamp
            invariant
                p <= sorted@.len(),
                sv == entry_views(sorted@),
                xv == x@,
                forall|m: int| p <= m < sorted@.len() ==> #[trigger] sv[m].timestamp > xv.timestamp,
            decreases p,
        {
            assert(sv[p - 1] == sorted@[p - 1]@);
            p = p - 1;
        }
        proof {
            lemma_insert_by_time_at(sv, xv, p as int);
        }
        sorted.insert(p, x);
        assert(entry_views(sorted@) =~= sv.insert(p as int, xv));
        assert(all.take(done + 1).drop_last() =~= all.take(done));
        assert(all.take(done + 1).last() == xv);
    }
    assert(all.take(n as int) =~= all);
    sorted
}

// ---------------------------------------------------------------------------
// Building rows

/// Builds the row of a recorded request from its stored value and response.
fn build_request_entry(
    req: &StampedMcpRequest,
    resp: Option<StampedMcpResponse>,
    source: RequestType,
) -> (r: InspectorEntry)
    ensures
        r@ == request_entry(*req, resp, source),
{
    let id = create_legit_svelte_id(&req.request.id, source);
    let mut stderr: Option<String> = None;
    let mut response: Option<MCPResponse> = None;
    let status = match &resp {
        Some(inner) => match &inner.response {
            MCPResponse::Success { .. } => {
                response = Some(inner.response.duplicate());
                LogStatus::Success
            },
            MCPResponse::Fail { error, .. } => {
                response = Some(inner.response.duplicate());
                stderr = Some(error.message.clone());
                LogStatus::Error
            },
        },
        None => LogStatus::Pending,
    };
    InspectorEntry {
        id,
        timestamp: req.timestamp,
        method: req.request.method.clone(),
        status,
        request: MCPDataPacket::Request(req.request.duplicate()),
        request_type: source,
        response,
        stderr,
    }
}

/// Rows for the requests of connection `server_id`.
pub fn collect_request_entries(
    requests: &LogStore<StampedMcpRequest>,
    responses: &LogStore<StampedMcpResponse>,
    server_id: &String,
    source: RequestType,
) -> (r: Vec<InspectorEntry>)
    requires
        keys_unique(responses@),
    ensures
        entry_views(r@) == request_entries(requests@, responses@, server_id@, source),
{
    let entries = requests.entries();
    let mut out: Vec<InspectorEntry> = Vec::new();
    let mut i: usize = 0;
    assert(entries@.take(0) =~= Seq::<StoreEntry<StampedMcpRequest>>::empty());
    while i < entries.len()
        invariant
            i <= entries@.len(),
            entries@ == requests@,
            keys_unique(responses@),
            entry_views(out@) == request_entries(entries@.take(i as int), responses@, server_id@, source),
        decreases entries@.len() - i,
    {
        let e = &entries[i];
        assert(entries@.take(i + 1).drop_last() =~= entries@.take(i as int));
        assert(entries@.take(i + 1).last() == *e);
        if e.server_id == *server_id {
            let resp = responses.get(server_id, &e.value.request.id);
            let row = build_request_entry(&e.value, resp, source);
            out.push(row);
            assert(entry_views(out@) =~= entry_views(out@.drop_last()).push(row@));
        }
        i = i + 1;
    }
    assert(entries@.take(i as int) =~= entries@);
    out
}

/// Rows for the notifications of connection `server_id`.
pub fn collect_notification_entries(
    notifications: &LogStore<StampedMcpNotification>,
    server_id: &String,
    source: RequestType,
) -> (r: Vec<InspectorEntry>)
    ensures
        entry_views(r@) == notification_entries(notifications@, server_id@, source),
{
    let entries = notifications.entries();
    let mut out: Vec<InspectorEntry> = Vec::new();
    let mut i: usize = 0;
    assert(entries@.take(0) =~= Seq::<StoreEntry<StampedMcpNotification>>::empty());
    while i < entries.len()
        invariant
            i <= entries@.len(),
            entries@ == notifications@,
            entry_views(out@) == notification_entries(entries@.take(i as int), server_id@, source),
        decreases entries@.len() - i,
    {
        let e = &entries[i];
        assert(entries@.take(i + 1).drop_last() =~= entries@.take(i as int));
        assert(entries@.take(i + 1).last() == *e);
        if e.server_id == *server_id {
            let row = InspectorEntry {
                id: create_legit_svelte_id(&e.key, source),
                timestamp: e.value.timestamp,
                method: e.value.notification.method.clone(),
                status: LogStatus::Notification,
                request: MCPDataPacket::Notification(e.value.notification.duplicate()),
                request_type: source,
                response: None,
                stderr: None,
            };
            out.push(row);
            assert(entry_views(out@) =~= entry_views(out@.drop_last()).push(row@));
        }
        i = i + 1;
    }
    assert(entries@.take(i as int) =~= entries@);
    out
}

/// Concatenates the four groups of rows and sorts them by time.
pub fn merge_and_sort(
    a: Vec<InspectorEntry>,
    b: Vec<InspectorEntry>,
    c: Vec<InspectorEntry>,
    d: Vec<InspectorEntry>,
) -> (r: Vec<InspectorEntry>)
    ensures
        entry_views(r@) == sort_by_time(
            entry_views(a@) + entry_views(b@) + entry_views(c@) + entry_views(d@),
        ),
{
    let mut all = a;
    let mut b = b;
    let mut c = c;
    let mut d = d;
    let ghost (av, bv, cv, dv) = (a@, b@, c@, d@);
    all.append(&mut b);
    all.append(&mut c);
    all.append(&mut d);
    assert(entry_views(all@) =~= entry_views(av) + entry_views(bv) + entry_views(cv)
        + entry_views(dv));
    sort_entries_by_time(all)
}

} // verus!

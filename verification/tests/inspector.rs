use shimmy::common_structs::{
    Id, LogStatus, MCPDataPacket, MCPError, MCPNotification, MCPRequest, MCPResponse, RequestType,
};
use shimmy::inspector::{greet, InspectorStore, ShimmyError, UiEvent, STATUS_BAD_REQUEST, STATUS_OK};

fn request(id: Id, method: &str) -> MCPRequest {
    MCPRequest::new(id, method.to_string(), None)
}

fn success(id: Id, result: &str) -> MCPResponse {
    MCPResponse::succeed(id, result.to_string())
}

fn failure(id: Id, message: &str) -> MCPResponse {
    MCPResponse::fail(id, MCPError::new(-32603, message.to_string(), None))
}

#[test]
fn recorded_request_can_be_read_back() {
    let mut store = InspectorStore::new();
    let reply = store.record_client_request("srv".to_string(), 10, request(Id::NumberId(1), "tools/list"));
    assert_eq!(reply.status, STATUS_OK);
    assert_eq!(reply.body, "");
    assert_eq!(
        reply.event,
        Some(UiEvent::ClientRequest { server_id: "srv".to_string(), request_id: Id::NumberId(1) })
    );
    let got = store.get_mcp_client_request("srv".to_string(), Id::NumberId(1)).unwrap();
    assert_eq!(got.request, request(Id::NumberId(1), "tools/list"));
    assert_eq!(got.timestamp, 10);
    assert_eq!(got.request.jsonrpc, "2.0");
}

#[test]
fn missing_entries_are_reported() {
    let store = InspectorStore::new();
    assert_eq!(
        store.get_mcp_client_request("srv".to_string(), Id::NumberId(1)).err(),
        Some(ShimmyError::Shimmy("Failed to find mcp request".to_string()))
    );
    assert_eq!(
        store.get_mcp_server_response("srv".to_string(), Id::NumberId(1)).err(),
        Some(ShimmyError::Shimmy("Failed to find mcp response".to_string()))
    );
    assert_eq!(
        store.get_mcp_client_notification("srv".to_string(), Id::NumberId(1)).err(),
        Some(ShimmyError::Shimmy("Failed to find mcp notification".to_string()))
    );
}

#[test]
fn ids_of_different_kinds_do_not_collide() {
    let mut store = InspectorStore::new();
    store.record_server_request("s".to_string(), 1, request(Id::NumberId(5), "ping"));
    assert!(store.get_mcp_server_request("s".to_string(), Id::StringId("5".to_string())).is_err());
    assert!(store.get_mcp_server_request("t".to_string(), Id::NumberId(5)).is_err());
    assert!(store.get_mcp_server_request("s".to_string(), Id::NumberId(5)).is_ok());
}

#[test]
fn recording_the_same_key_again_replaces_the_value() {
    let mut store = InspectorStore::new();
    store.record_client_request("s".to_string(), 1, request(Id::NumberId(7), "a"));
    store.record_client_request("s".to_string(), 2, request(Id::NumberId(7), "b"));
    let got = store.get_mcp_client_request("s".to_string(), Id::NumberId(7)).unwrap();
    assert_eq!(got.request.method, "b");
    assert_eq!(got.timestamp, 2);
    assert_eq!(store.get_mcp_logs("s".to_string()).unwrap().len(), 1);
}

#[test]
fn initialize_start_accepts_only_initialize() {
    let mut store = InspectorStore::new();
    let reply = store.record_initialize_start("conn".to_string(), 3, request(Id::NumberId(0), "tools/list"));
    assert_eq!(reply.status, STATUS_BAD_REQUEST);
    assert_eq!(reply.body, "Method should be `initialize` but got tools/list instead");
    assert_eq!(reply.event, None);
    assert!(store.get_mcp_client_request("conn".to_string(), Id::NumberId(0)).is_err());

    let reply = store.record_initialize_start("conn".to_string(), 3, request(Id::NumberId(0), "initialize"));
    assert_eq!(reply.status, STATUS_OK);
    assert_eq!(reply.body, "conn");
    assert_eq!(reply.event, Some(UiEvent::InitializeStart { server_id: "conn".to_string() }));
    assert!(store.get_mcp_client_request("conn".to_string(), Id::NumberId(0)).is_ok());
}

#[test]
fn initialize_start_hands_out_a_fresh_connection_id() {
    let mut store = InspectorStore::new();
    let reply = store.mcp_initialize_start(request(Id::NumberId(0), "initialize"));
    assert_eq!(reply.status, STATUS_OK);
    assert_eq!(reply.body.len(), 36);
    assert_eq!(reply.body.chars().nth(14), Some('4'));
    let got = store.get_mcp_client_request(reply.body.clone(), Id::NumberId(0)).unwrap();
    assert_eq!(got.request.method, "initialize");
    let other = store.mcp_initialize_start(request(Id::NumberId(0), "initialize"));
    assert_ne!(other.body, reply.body);
}

#[test]
fn initialize_finish_keeps_only_successes() {
    let mut store = InspectorStore::new();
    let reply = store.record_initialize_finish("c".to_string(), 5, failure(Id::NumberId(0), "boom"));
    assert_eq!(reply.status, STATUS_BAD_REQUEST);
    assert_eq!(reply.event, None);
    assert!(store.get_mcp_server_response("c".to_string(), Id::NumberId(0)).is_err());

    let reply = store.record_initialize_finish("c".to_string(), 5, success(Id::NumberId(0), "{}"));
    assert_eq!(reply.status, STATUS_OK);
    assert_eq!(
        reply.event,
        Some(UiEvent::InitializeFinish { server_id: "c".to_string(), request_id: Id::NumberId(0) })
    );
    assert_eq!(
        store.get_mcp_server_response("c".to_string(), Id::NumberId(0)).unwrap().response,
        success(Id::NumberId(0), "{}")
    );
}

#[test]
fn responses_are_keyed_by_the_id_they_answer() {
    let mut store = InspectorStore::new();
    let reply = store.record_client_response("c".to_string(), 9, success(Id::StringId("r1".to_string()), "{\"x\":1}"));
    assert_eq!(
        reply.event,
        Some(UiEvent::ClientResponse { server_id: "c".to_string(), response_id: Id::StringId("r1".to_string()) })
    );
    assert!(store.get_mcp_client_response("c".to_string(), Id::StringId("r1".to_string())).is_ok());
    let reply = store.server_mcp_response("c".to_string(), failure(Id::NumberId(4), "bad"));
    assert_eq!(reply.status, STATUS_OK);
    assert!(store.get_mcp_server_response("c".to_string(), Id::NumberId(4)).is_ok());
}

#[test]
fn notifications_get_fresh_ids() {
    let mut store = InspectorStore::new();
    let reply = store.client_mcp_notification("c".to_string(), MCPNotification::new("notifications/initialized".to_string(), None));
    let id = match reply.event {
        Some(UiEvent::ClientNotification { server_id, notification_id }) => {
            assert_eq!(server_id, "c");
            notification_id
        }
        other => panic!("unexpected event {:?}", other),
    };
    match &id {
        Id::StringId(s) => assert_eq!(s.len(), 36),
        Id::NumberId(_) => panic!("expected a string id"),
    }
    let got = store.get_mcp_client_notification("c".to_string(), id).unwrap();
    assert_eq!(got.notification.method, "notifications/initialized");
    assert!(store.get_mcp_server_notification("c".to_string(), Id::NumberId(0)).is_err());
}

#[test]
fn timeline_joins_responses_and_sorts_by_time() {
    let mut store = InspectorStore::new();
    store.record_client_request("c".to_string(), 30, request(Id::NumberId(1), "tools/list"));
    store.record_client_request("c".to_string(), 10, request(Id::NumberId(2), "tools/call"));
    store.record_client_request("c".to_string(), 20, request(Id::NumberId(3), "ping"));
    store.record_server_response("c".to_string(), 31, success(Id::NumberId(1), "{}"));
    store.record_server_response("c".to_string(), 11, failure(Id::NumberId(2), "tool failed"));
    store.record_server_request("c".to_string(), 15, request(Id::StringId("e".to_string()), "elicitation/create"));
    store.record_client_notification("c".to_string(), "n1".to_string(), 5, MCPNotification::new("notifications/initialized".to_string(), None));
    store.record_server_notification("c".to_string(), "n2".to_string(), 20, MCPNotification::new("notifications/tools/list_changed".to_string(), None));
    store.record_client_request("other".to_string(), 1, request(Id::NumberId(9), "ping"));

    let logs = store.get_mcp_logs("c".to_string()).unwrap();
    let ids: Vec<&str> = logs.iter().map(|e| e.id.as_str()).collect();
    assert_eq!(ids, vec!["client-n1", "client-2", "server-e", "client-3", "server-n2", "client-1"]);
    let stamps: Vec<i128> = logs.iter().map(|e| e.timestamp).collect();
    assert_eq!(stamps, vec![5, 10, 15, 20, 20, 30]);

    assert_eq!(logs[0].status, LogStatus::Notification);
    assert_eq!(logs[0].request_type, RequestType::Client);
    assert_eq!(logs[1].status, LogStatus::Error);
    assert_eq!(logs[1].stderr, Some("tool failed".to_string()));
    assert_eq!(logs[1].response, Some(failure(Id::NumberId(2), "tool failed")));
    assert_eq!(logs[2].status, LogStatus::Pending);
    assert_eq!(logs[2].request_type, RequestType::Server);
    assert_eq!(logs[3].status, LogStatus::Pending);
    assert_eq!(logs[3].response, None);
    assert_eq!(logs[4].status, LogStatus::Notification);
    assert_eq!(logs[5].status, LogStatus::Success);
    assert_eq!(logs[5].stderr, None);
    assert_eq!(logs[5].method, "tools/list");
    assert_eq!(logs[5].request, MCPDataPacket::Request(request(Id::NumberId(1), "tools/list")));
}

#[test]
fn forgetting_a_connection_clears_its_timeline_only() {
    let mut store = InspectorStore::new();
    store.record_client_request("c".to_string(), 1, request(Id::NumberId(1), "ping"));
    store.record_server_response("c".to_string(), 2, success(Id::NumberId(1), "{}"));
    store.record_server_request("c".to_string(), 3, request(Id::NumberId(2), "ping"));
    store.record_client_response("c".to_string(), 4, success(Id::NumberId(2), "{}"));
    store.record_client_notification("c".to_string(), "n".to_string(), 5, MCPNotification::new("x".to_string(), None));
    store.record_client_request("d".to_string(), 1, request(Id::NumberId(1), "ping"));
    store.record_server_response("d".to_string(), 2, success(Id::NumberId(1), "{}"));

    let before_d = store.get_mcp_logs("d".to_string()).unwrap();
    assert_eq!(store.delete_connection_data("c".to_string()), Ok(()));
    assert!(store.get_mcp_logs("c".to_string()).unwrap().is_empty());
    assert!(store.get_mcp_client_request("c".to_string(), Id::NumberId(1)).is_err());
    assert!(store.get_mcp_client_response("c".to_string(), Id::NumberId(2)).is_err());
    // The server responses are not among the logs the deletion clears.
    assert!(store.get_mcp_server_response("c".to_string(), Id::NumberId(1)).is_ok());
    let after_d = store.get_mcp_logs("d".to_string()).unwrap();
    assert_eq!(before_d, after_d);
    assert_eq!(after_d[0].status, LogStatus::Success);
}

#[test]
fn event_names() {
    let e = UiEvent::InitializeStart { server_id: "x".to_string() };
    assert_eq!(e.name(), "mcp-initialize-start");
    let e = UiEvent::ServerNotification { server_id: "x".to_string(), notification_id: Id::NumberId(1) };
    assert_eq!(e.name(), "mcp-server-notification");
    let e = UiEvent::ClientResponse { server_id: "x".to_string(), response_id: Id::NumberId(1) };
    assert_eq!(e.name(), "mcp-client-response");
}

#[test]
fn greets_by_name() {
    assert_eq!(greet("Ada"), "Hello, Ada! You've been greeted from Rust!");
}

#[test]
fn inspector_error_text_names_the_error() {
    let e = ShimmyError::Shimmy("Failed to find mcp request".to_string());
    assert_eq!(e.to_string(), "Shimmy Error: Failed to find mcp request");
}

#[test]
fn forgetting_a_connection_twice_is_forgetting_it_once() {
    let mut store = InspectorStore::new();
    store.record_client_request("c".to_string(), 1, request(Id::NumberId(1), "ping"));
    store.record_client_request("d".to_string(), 2, request(Id::NumberId(1), "ping"));
    assert_eq!(store.delete_connection_data("c".to_string()), Ok(()));
    let once = store.get_mcp_logs("d".to_string()).unwrap();
    assert_eq!(store.delete_connection_data("c".to_string()), Ok(()));
    assert_eq!(store.get_mcp_logs("d".to_string()).unwrap(), once);
    assert!(store.get_mcp_logs("c".to_string()).unwrap().is_empty());
}

#[test]
fn rows_recorded_at_the_same_time_keep_their_order() {
    let mut store = InspectorStore::new();
    store.record_client_request("c".to_string(), 7, request(Id::NumberId(3), "a"));
    store.record_client_request("c".to_string(), 7, request(Id::NumberId(1), "b"));
    store.record_client_request("c".to_string(), 2, request(Id::NumberId(2), "c"));
    store.record_server_request("c".to_string(), 7, request(Id::NumberId(4), "d"));
    store.record_client_notification("c".to_string(), "n".to_string(), 7, MCPNotification::new("e".to_string(), None));
    store.well_formed();
    let logs = store.get_mcp_logs("c".to_string()).unwrap();
    let ids: Vec<&str> = logs.iter().map(|e| e.id.as_str()).collect();
    assert_eq!(ids, vec!["client-2", "client-3", "client-1", "server-4", "client-n"]);
}

use shimmy::clock::is_timestamp_in_range;
use shimmy::common_structs::{
    create_legit_svelte_id, Id, MCPError, MCPNotification, MCPRequest, MCPResponse, RequestType,
    StampedMcpRequest, StampedMcpResponse,
};

#[test]
fn element_ids_name_origin_and_id() {
    assert_eq!(create_legit_svelte_id(&Id::NumberId(42), RequestType::Client), "client-42");
    assert_eq!(create_legit_svelte_id(&Id::NumberId(0), RequestType::Server), "server-0");
    assert_eq!(create_legit_svelte_id(&Id::NumberId(-7), RequestType::Client), "client--7");
    assert_eq!(
        create_legit_svelte_id(&Id::NumberId(i64::MIN), RequestType::Client),
        format!("client-{}", i64::MIN)
    );
    assert_eq!(
        create_legit_svelte_id(&Id::NumberId(i64::MAX), RequestType::Server),
        format!("server-{}", i64::MAX)
    );
    assert_eq!(create_legit_svelte_id(&Id::StringId("abc".to_string()), RequestType::Server), "server-abc");
    assert_eq!(create_legit_svelte_id(&Id::StringId(String::new()), RequestType::Client), "client-");
}

#[test]
fn packets_carry_the_protocol_version() {
    let r = MCPRequest::new(Id::NumberId(1), "ping".to_string(), None);
    assert_eq!(r.jsonrpc, "2.0");
    let n = MCPNotification::new("notifications/initialized".to_string(), Some("{\"a\":1}".to_string()));
    assert_eq!(n.jsonrpc, "2.0");
    assert_eq!(n.params, Some("{\"a\":1}".to_string()));
    match MCPResponse::succeed(Id::NumberId(3), "{}".to_string()) {
        MCPResponse::Success { jsonrpc, id, result } => {
            assert_eq!(jsonrpc, "2.0");
            assert_eq!(id, Id::NumberId(3));
            assert_eq!(result, "{}");
        }
        MCPResponse::Fail { .. } => panic!("expected success"),
    }
    let e = MCPError::new(-1, "m".to_string(), None);
    match MCPResponse::fail(Id::StringId("x".to_string()), e.duplicate()) {
        MCPResponse::Fail { jsonrpc, id, error } => {
            assert_eq!(jsonrpc, "2.0");
            assert_eq!(id, Id::StringId("x".to_string()));
            assert_eq!(error, e);
        }
        MCPResponse::Success { .. } => panic!("expected failure"),
    }
}

#[test]
fn ids_compare_by_kind_and_value() {
    assert!(Id::NumberId(1).same_as(&Id::NumberId(1)));
    assert!(!Id::NumberId(1).same_as(&Id::StringId("1".to_string())));
    assert!(Id::StringId("a".to_string()).same_as(&Id::StringId("a".to_string())));
    assert_eq!(Id::StringId("a".to_string()).duplicate(), Id::StringId("a".to_string()));
}

#[test]
fn packing_keeps_the_packet_and_writes_the_time() {
    let r = MCPRequest::new(Id::NumberId(1), "ping".to_string(), None);
    let packed = StampedMcpRequest { request: r.duplicate(), timestamp: 1_700_000_000_000_000_000 }.pack_for_serializing();
    assert_eq!(packed.request, r);
    assert!(packed.timestamp.starts_with("2023-11-1"));
    let resp = MCPResponse::succeed(Id::NumberId(1), "{}".to_string());
    let packed = StampedMcpResponse { response: resp.duplicate(), timestamp: 0 }.pack_for_serializing();
    assert_eq!(packed.response, resp);
    assert!(packed.timestamp.contains("19"));
}

#[test]
fn timestamp_range_matches_jiff() {
    let min = jiff::Timestamp::MIN.as_nanosecond();
    let max = jiff::Timestamp::MAX.as_nanosecond();
    assert!(is_timestamp_in_range(min));
    assert!(is_timestamp_in_range(max));
    assert!(!is_timestamp_in_range(min - 1));
    assert!(!is_timestamp_in_range(max + 1));
    assert!(is_timestamp_in_range(shimmy::clock::now_nanos()));
}

#[test]
fn element_ids_keep_origins_and_ids_apart() {
    let client = create_legit_svelte_id(&Id::NumberId(5), RequestType::Client);
    let server = create_legit_svelte_id(&Id::NumberId(5), RequestType::Server);
    assert_ne!(client, server);
    assert_ne!(
        create_legit_svelte_id(&Id::NumberId(12), RequestType::Client),
        create_legit_svelte_id(&Id::NumberId(-12), RequestType::Client)
    );
    assert_ne!(
        create_legit_svelte_id(&Id::NumberId(1), RequestType::Client),
        create_legit_svelte_id(&Id::NumberId(10), RequestType::Client)
    );
    // A number id and a text id that spell the same share an element id.
    assert_eq!(client, create_legit_svelte_id(&Id::StringId("5".to_string()), RequestType::Client));
}

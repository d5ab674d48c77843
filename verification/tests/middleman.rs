use shimmy::common_structs::{Id, MCPDataPacket, MCPError, MCPResponse, McpServerTransport};
use shimmy::conversions::{
    convert_optional_params, convert_text_to_error_data, convert_to_json_value, INTERNAL_ERROR,
    PARSE_ERROR,
};
use shimmy::middleman::{
    conclude_initialize, service_not_ready, unexpected_reply, McpClient, McpHttpClient, McpStdioClient, ProxiedCall, ProxiedNotification, ShimmyClient,
};

fn linked(id: &str) -> ShimmyClient {
    let mut link = ShimmyClient::new();
    assert!(link.set_id(id.to_string()));
    link
}

#[test]
fn transport_follows_the_client_kind() {
    let stdio = McpClient::Stdio(McpStdioClient::new("node".to_string(), vec!["server.js".to_string()]));
    assert_eq!(stdio.transport(), McpServerTransport::Stdio);
    let http = McpClient::Http(McpHttpClient::new("http://127.0.0.1:8080".to_string()));
    assert_eq!(http.transport(), McpServerTransport::Http);
}

#[test]
fn stdio_client_keeps_command_and_arguments() {
    let c = McpStdioClient::new("python".to_string(), vec!["a.py".to_string(), "--x".to_string()]);
    assert_eq!(c.cmd(), "python");
    assert_eq!(c.args(), &vec!["a.py".to_string(), "--x".to_string()]);
    assert_eq!(McpHttpClient::new("u".to_string()).url(), "u");
}

#[test]
fn nothing_is_reported_before_the_connection_id_arrives() {
    let link = ShimmyClient::new();
    assert_eq!(link.report_url("client/request"), None);
    assert_eq!(link.log_request(ProxiedCall::ListTools, Id::NumberId(1), None), None);
    assert_eq!(link.disconnect_url(), None);
    let err = link.get_id().unwrap_err();
    assert_eq!(err.code, INTERNAL_ERROR);
    assert_eq!(err.message, "Missing ID from shimmy server");
    let err = link
        .finish_initialize(MCPResponse::succeed(Id::NumberId(0), "{}".to_string()), McpServerTransport::Stdio)
        .unwrap_err();
    assert_eq!(err.code, INTERNAL_ERROR);
    assert_eq!(err.message, "Missing ID from shimmy server");
    assert_eq!(err.data, None);
}

#[test]
fn the_connection_id_is_set_once() {
    let mut link = ShimmyClient::new();
    assert!(link.set_id("first".to_string()));
    assert!(!link.set_id("second".to_string()));
    assert_eq!(link.get_id(), Ok("first".to_string()));
}

#[test]
fn requests_and_answers_are_reported_in_pairs() {
    let link = linked("abc");
    let req = link.log_request(ProxiedCall::CallTool, Id::NumberId(7), Some("{\"name\":\"t\"}".to_string())).unwrap();
    assert_eq!(req.url, "http://127.0.0.1:13579/client/request/abc");
    match &req.packet {
        MCPDataPacket::Request(r) => {
            assert_eq!(r.method, "tools/call");
            assert_eq!(r.id, Id::NumberId(7));
            assert_eq!(r.params, Some("{\"name\":\"t\"}".to_string()));
        }
        _ => panic!("expected a request"),
    }
    let resp = link.log_response(ProxiedCall::CallTool, Id::NumberId(7), "{\"content\":[]}".to_string()).unwrap();
    assert_eq!(resp.url, "http://127.0.0.1:13579/server/response/abc");
    assert_eq!(resp.packet, MCPDataPacket::Response(MCPResponse::succeed(Id::NumberId(7), "{\"content\":[]}".to_string())));

    let req = link.log_request(ProxiedCall::CreateElicitation, Id::NumberId(1), None).unwrap();
    assert_eq!(req.url, "http://127.0.0.1:13579/server/request/abc");
    let resp = link.log_response(ProxiedCall::ListRoots, Id::NumberId(1), "{}".to_string()).unwrap();
    assert_eq!(resp.url, "http://127.0.0.1:13579/client/response/abc");
}

#[test]
fn failures_are_reported_as_error_responses() {
    let link = linked("abc");
    let ok: Result<u8, MCPError> = Ok(1);
    assert_eq!(link.pipe_mcp_error_if_any(Id::NumberId(1), "server/response", &ok), None);
    let err: Result<u8, MCPError> = Err(convert_text_to_error_data(INTERNAL_ERROR, "down".to_string()));
    let d = link.pipe_mcp_error_if_any(Id::NumberId(1), "server/response", &err).unwrap();
    assert_eq!(d.url, "http://127.0.0.1:13579/server/response/abc");
    assert_eq!(
        d.packet,
        MCPDataPacket::Response(MCPResponse::fail(Id::NumberId(1), MCPError::new(INTERNAL_ERROR, "down".to_string(), None)))
    );
    assert_eq!(ShimmyClient::new().pipe_mcp_error_if_any(Id::NumberId(1), "server/response", &err), None);
}

#[test]
fn notifications_go_to_their_side() {
    let link = linked("z");
    let d = link.log_notification(ProxiedNotification::Initialized, None).unwrap();
    assert_eq!(d.url, "http://127.0.0.1:13579/client/notification/z");
    let d = link.log_notification(ProxiedNotification::ToolListChanged, None).unwrap();
    assert_eq!(d.url, "http://127.0.0.1:13579/server/notification/z");
    assert_eq!(ProxiedNotification::ServerCancelled.method(), "notifications/cancelled");
    assert_eq!(ProxiedNotification::RootsListChanged.method(), "notifications/roots/list_changed");
}

#[test]
fn initialization_posts() {
    let start = ShimmyClient::initialize_start(Id::NumberId(0), "{\"protocolVersion\":\"x\"}".to_string());
    assert_eq!(start.url, "http://127.0.0.1:13579/initialize/start");
    let link = linked("q");
    let fin = link.finish_initialize(MCPResponse::succeed(Id::NumberId(0), "{}".to_string()), McpServerTransport::Http).unwrap();
    assert_eq!(fin.url, "http://127.0.0.1:13579/initialize/finish/q");
    assert_eq!(fin.body.transport, McpServerTransport::Http);
    assert_eq!(link.disconnect_url(), Some("http://127.0.0.1:13579/disconnect/q".to_string()));
}

#[test]
fn method_names() {
    let expected = [
        (ProxiedCall::Initialize, "initialize"),
        (ProxiedCall::ListTools, "tools/list"),
        (ProxiedCall::ListResourceTemplates, "resources/templates/list"),
        (ProxiedCall::SetLevel, "logging/setLevel"),
        (ProxiedCall::GetPrompt, "prompts/get"),
        (ProxiedCall::ServerPing, "ping"),
        (ProxiedCall::CreateMessage, "sampling/createMessage"),
    ];
    for (call, name) in expected {
        assert_eq!(call.method(), name);
    }
    assert_eq!(ProxiedCall::Ping.request_path(), "client/request");
    assert_eq!(ProxiedCall::ServerPing.request_path(), "server/request");
}

#[test]
fn json_payload_conversions() {
    assert_eq!(convert_to_json_value(Ok("null".to_string())), Ok("{}".to_string()));
    assert_eq!(convert_to_json_value(Ok("[1]".to_string())), Ok("[1]".to_string()));
    let e = convert_to_json_value(Err("bad".to_string())).unwrap_err();
    assert_eq!((e.code, e.message.as_str(), e.data), (PARSE_ERROR, "bad", None));
    assert_eq!(convert_optional_params(None), Ok(None));
    assert_eq!(convert_optional_params(Some(Ok("{}".to_string()))), Ok(None));
    assert_eq!(convert_optional_params(Some(Ok("null".to_string()))), Ok(None));
    assert_eq!(convert_optional_params(Some(Ok("{\"a\":1}".to_string()))), Ok(Some("{\"a\":1}".to_string())));
    assert!(convert_optional_params(Some(Err("x".to_string()))).is_err());
}

#[test]
fn error_codes_are_the_protocol_codes() {
    assert_eq!(INTERNAL_ERROR, rmcp::model::ErrorCode::INTERNAL_ERROR.0);
    assert_eq!(PARSE_ERROR, rmcp::model::ErrorCode::PARSE_ERROR.0);
}

#[test]
fn initialize_concludes_with_the_server_description() {
    let (reply, response) = conclude_initialize(
        Id::NumberId(0),
        Ok(Some((7u8, "{\"serverInfo\":{}}".to_string()))),
    );
    assert_eq!(reply, Ok(7u8));
    assert_eq!(response, MCPResponse::succeed(Id::NumberId(0), "{\"serverInfo\":{}}".to_string()));
}

#[test]
fn initialize_without_a_description_is_an_internal_error() {
    let (reply, response) = conclude_initialize::<u8>(Id::StringId("a".to_string()), Ok(None));
    let expected = MCPError::new(INTERNAL_ERROR, "Failed to fetch server information".to_string(), None);
    assert_eq!(reply, Err(expected.duplicate()));
    assert_eq!(response, MCPResponse::fail(Id::StringId("a".to_string()), expected));
}

#[test]
fn initialize_failure_is_reported_and_returned() {
    let error = MCPError::new(-32000, "spawn failed".to_string(), Some("\"x\"".to_string()));
    let (reply, response) = conclude_initialize::<u8>(Id::NumberId(3), Err(error.duplicate()));
    assert_eq!(reply, Err(error.duplicate()));
    assert_eq!(response, MCPResponse::fail(Id::NumberId(3), error));
}

#[test]
fn relay_errors_carry_their_messages() {
    let e = service_not_ready();
    assert_eq!(e.code, INTERNAL_ERROR);
    assert_eq!(e.message, "Failed trying to use service before it's initialized");
    assert_eq!(e.data, None);
    assert_eq!(unexpected_reply(ProxiedCall::Ping).message, "Expect ping response, but got something else");
    assert_eq!(unexpected_reply(ProxiedCall::ServerPing).message, "Expect ping response, but got something else");
    let e = unexpected_reply(ProxiedCall::CreateElicitation);
    assert_eq!(e.code, INTERNAL_ERROR);
    assert_eq!(e.message, "Expect elicitation result, but got something else");
}

#[test]
fn relay_reports_the_successful_answer_and_passes_the_reply_on() {
    let link = linked("k");
    let (reply, report) = link.relay_outcome(
        ProxiedCall::ListTools,
        Id::NumberId(4),
        Ok(Some((vec![1u8, 2], "{\"tools\":[]}".to_string()))),
    );
    assert_eq!(reply, Ok(vec![1u8, 2]));
    let d = report.unwrap();
    assert_eq!(d.url, "http://127.0.0.1:13579/server/response/k");
    assert_eq!(
        d.packet,
        MCPDataPacket::Response(MCPResponse::succeed(Id::NumberId(4), "{\"tools\":[]}".to_string()))
    );
}

#[test]
fn relay_turns_a_reply_of_the_wrong_kind_into_a_reported_error() {
    let link = linked("k");
    let (reply, report) = link.relay_outcome::<()>(ProxiedCall::ServerPing, Id::NumberId(2), Ok(None));
    let expected = unexpected_reply(ProxiedCall::ServerPing);
    assert_eq!(reply, Err(expected.duplicate()));
    let d = report.unwrap();
    assert_eq!(d.url, "http://127.0.0.1:13579/client/response/k");
    assert_eq!(d.packet, MCPDataPacket::Response(MCPResponse::fail(Id::NumberId(2), expected)));
}

#[test]
fn relay_hands_back_an_error_and_reports_it() {
    let error = MCPError::new(-32601, "Method not found".to_string(), None);
    let link = linked("k");
    let (reply, report) = link.relay_outcome::<u8>(ProxiedCall::CallTool, Id::StringId("r".to_string()), Err(error.duplicate()));
    assert_eq!(reply, Err(error.duplicate()));
    assert_eq!(
        report.unwrap().packet,
        MCPDataPacket::Response(MCPResponse::fail(Id::StringId("r".to_string()), error.duplicate()))
    );
    let unlinked = ShimmyClient::new();
    let (reply, report) = unlinked.relay_outcome::<u8>(ProxiedCall::CallTool, Id::NumberId(1), Err(error.duplicate()));
    assert_eq!(reply, Err(error));
    assert_eq!(report, None);
    assert!(ProxiedCall::Ping.checks_reply_kind());
    assert!(!ProxiedCall::ListTools.checks_reply_kind());
}

use aegis_ai_runtime::capabilities::Capability;
use aegis_ai_runtime::mcp::{Dispatch, DoSConfig, JsonRpcRequest, McpServer, RequestParams, RpcResult};
use aegis_ai_runtime::policy::{Policy, ToolPolicy};
use aegis_ai_runtime::strmap::StrMap;
use aegis_ai_runtime::{Aegis, ExecutionState};

fn policy() -> Policy {
    let mut tools = StrMap::new();
    tools.insert(
        "default".to_string(),
        ToolPolicy { capabilities: vec![Capability::KvSet, Capability::KvGet], ..Default::default() },
    );
    tools.insert(
        "guarded".to_string(),
        ToolPolicy { requires_approval: true, ..Default::default() },
    );
    Policy { default_capabilities: vec!["log".to_string()], tools }
}

fn server() -> McpServer {
    McpServer::new(Aegis::new(), policy())
}

fn request(method: &str, code: Option<&str>, tool: Option<&str>, id: i64) -> Option<JsonRpcRequest> {
    Some(JsonRpcRequest {
        jsonrpc: "2.0".to_string(),
        method: method.to_string(),
        params: RequestParams { code: code.map(|s| s.to_string()), tool: tool.map(|s| s.to_string()) },
        id: Some(serde_json::Value::from(id)),
    })
}

fn reply_error(d: Dispatch) -> (i32, String, Option<serde_json::Value>) {
    match d {
        Dispatch::Reply(r) => {
            assert!(r.result.is_none());
            assert_eq!(r.jsonrpc, "2.0");
            let e = r.error.unwrap();
            (e.code, e.message, r.id)
        }
        Dispatch::Run(_) => panic!("expected a reply"),
    }
}

#[test]
fn test_validate_method() {
    let server = server();

    assert!(server.validate_method("execute").is_ok());
    assert!(server.validate_method("approve").is_ok());
    assert!(server.validate_method("unknown").is_err());
}

#[test]
fn test_validate_request_size() {
    let server = server();

    assert!(server.validate_request_size("{}").is_ok());
    assert!(server.validate_request_size(&"x".repeat(1_000_001)).is_err());
}

#[test]
fn test_rate_limit_allows_requests() {
    let mut server = server();

    for _ in 0..5 {
        assert!(server.check_rate_limit("client1").is_ok());
    }
}

#[test]
fn test_concurrent_limit() {
    let server = server();

    assert!(server.check_concurrent_limit().is_ok());
}

#[test]
fn allowed_methods_and_size_edge() {
    let s = server();
    for m in ["execute", "approve", "list_executions", "get_execution", "validate"] {
        assert!(s.validate_method(m).is_ok());
    }
    assert_eq!(s.validate_method("list_policies").unwrap_err(), "Unknown method: list_policies");
    assert!(s.validate_request_size(&"x".repeat(1_000_000)).is_ok());
    assert_eq!(s.validate_request_size(&"x".repeat(1_000_001)).unwrap_err(), "Request too large");
}

#[test]
fn rate_limit_refuses_the_sixty_first_request_in_a_minute() {
    let mut s = server();
    for i in 0..60u128 {
        assert!(s.check_rate_limit_at("c", i).is_ok());
    }
    assert_eq!(s.check_rate_limit_at("c", 60).unwrap_err(), "Rate limit exceeded");
    assert!(s.check_rate_limit_at("other", 60).is_ok());
    // exactly one minute later the window is still the same
    assert!(s.check_rate_limit_at("c", 60_000_000_000).is_err());
    // after more than a minute the window restarts
    assert!(s.check_rate_limit_at("c", 60_000_000_001).is_ok());
}

#[test]
fn concurrency_limit_counts_active_executions() {
    let mut s = server();
    let mut runs = 0u64;
    while s.check_concurrent_limit().is_ok() {
        match s.dispatch(request("execute", Some("1"), None, 1)) {
            Dispatch::Run(_) => {}
            Dispatch::Reply(_) => panic!("expected a run"),
        }
        runs += 1;
        assert!(runs < 100_000_000);
    }
    assert!(runs >= 10);
    assert_eq!(s.check_concurrent_limit().unwrap_err(), "Too many concurrent executions");
    assert_eq!(DoSConfig::default().max_concurrent_executions, 10);
}

#[test]
fn admission_checks_size_then_rate() {
    let mut s = server();
    match s.admit_request(&"x".repeat(1_000_001)) {
        Err(r) => {
            let e = r.error.unwrap();
            assert_eq!((e.code, e.message.as_str()), (-32600, "Request too large"));
            assert!(r.id.is_none());
        }
        Ok(()) => panic!("expected refusal"),
    }
    for _ in 0..60 {
        assert!(s.admit_request("{}").is_ok());
    }
    match s.admit_request("{}") {
        Err(r) => {
            let e = r.error.unwrap();
            assert_eq!((e.code, e.message.as_str()), (-32600, "Rate limit exceeded"));
        }
        Ok(()) => panic!("expected refusal"),
    }
}

#[test]
fn dispatch_errors() {
    let mut s = server();
    assert_eq!(reply_error(s.dispatch(None)), (-32700, "Invalid JSON".to_string(), None));
    let (c, m, id) = reply_error(s.dispatch(request("pause_execution", None, None, 3)));
    assert_eq!((c, m.as_str()), (-32601, "Unknown method: pause_execution"));
    assert_eq!(id, Some(serde_json::Value::from(3)));
    let (c, m, _) = reply_error(s.dispatch(request("validate", None, None, 4)));
    assert_eq!((c, m.as_str()), (-32601, "Method not found: validate"));
    let (c, m, _) = reply_error(s.dispatch(request("get_execution", None, None, 5)));
    assert_eq!((c, m.as_str()), (-32601, "Method not found: get_execution"));
    let (c, m, _) = reply_error(s.dispatch(request("execute", Some("1"), Some("guarded"), 6)));
    assert_eq!(
        (c, m.as_str()),
        (-32001, "Tool 'guarded' requires approval. Use 'approve' method first.")
    );
}

#[test]
fn dispatch_execute_records_a_running_execution() {
    let mut s = server();
    match s.dispatch(request("execute", Some("kv_get(\"a\")"), None, 7)) {
        Dispatch::Run(job) => {
            assert_eq!(job.code, "kv_get(\"a\")");
            assert_eq!(job.id, Some(serde_json::Value::from(7)));
            assert!(job.sandbox.engine_setup().kv_get);
            assert!(job.exec_id.starts_with("exec_"));
        }
        Dispatch::Reply(_) => panic!("expected a run"),
    }
    match s.dispatch(request("list_executions", None, None, 8)) {
        Dispatch::Reply(r) => match r.result {
            Some(RpcResult::Executions(v)) => {
                assert_eq!(v.len(), 1);
                assert_eq!(v[0].tool, "default");
                assert_eq!(v[0].state, ExecutionState::Running);
            }
            _ => panic!("expected executions"),
        },
        Dispatch::Run(_) => panic!("expected a reply"),
    }
}

#[test]
fn dispatch_execute_without_code_or_known_tool() {
    let mut s = server();
    match s.dispatch(request("execute", None, Some("unknown_tool"), 1)) {
        Dispatch::Run(job) => {
            assert_eq!(job.code, "");
            assert!(!job.sandbox.engine_setup().kv_get);
        }
        Dispatch::Reply(_) => panic!("expected a run"),
    }
}

#[test]
fn dispatch_approve_names_the_tool() {
    let mut s = server();
    match s.dispatch(request("approve", None, Some("guarded"), 9)) {
        Dispatch::Reply(r) => {
            assert!(r.error.is_none());
            match r.result {
                Some(RpcResult::Approved(t)) => assert_eq!(t, "guarded"),
                _ => panic!("expected approval"),
            }
        }
        Dispatch::Run(_) => panic!("expected a reply"),
    }
    match s.dispatch(request("approve", None, None, 10)) {
        Dispatch::Reply(r) => match r.result {
            Some(RpcResult::Approved(t)) => assert_eq!(t, ""),
            _ => panic!("expected approval"),
        },
        Dispatch::Run(_) => panic!("expected a reply"),
    }
}

#[test]
fn execution_response_wraps_the_outcome() {
    let ok = McpServer::execution_response(Some(serde_json::Value::from(1)), Ok("42".to_string()));
    assert!(ok.error.is_none());
    match ok.result {
        Some(RpcResult::Value(v)) => assert_eq!(v, "42"),
        _ => panic!("expected a value"),
    }
    let err = McpServer::execution_response(None, Err("Script error: x".to_string()));
    let e = err.error.unwrap();
    assert_eq!((e.code, e.message.as_str()), (-32000, "Script error: x"));
}

use aegis_ai_runtime::capabilities::{Capability, ResourceLimits};
use aegis_ai_runtime::policy::{Policy, ToolPolicy};
use aegis_ai_runtime::strmap::StrMap;
use aegis_ai_runtime::Aegis;

fn strings(v: &[&str]) -> Vec<String> {
    v.iter().map(|s| s.to_string()).collect()
}

fn policy() -> Policy {
    let mut tools = StrMap::new();
    tools.insert(
        "weather_fetch".to_string(),
        ToolPolicy {
            capabilities: vec![Capability::HttpGet, Capability::KvSet, Capability::KvGet],
            resource_limits: ResourceLimits { max_memory_mb: 32, max_operations: 500, max_call_depth: 8, timeout_seconds: 5 },
            allowed_domains: strings(&["api.weather.com"]),
            allowed_key_prefixes: strings(&["weather:"]),
            ..Default::default()
        },
    );
    tools.insert(
        "file_tool".to_string(),
        ToolPolicy {
            capabilities: vec![Capability::FileRead, Capability::FileWrite, Capability::FileList],
            allowed_paths: strings(&["/data/"]),
            ..Default::default()
        },
    );
    Policy { default_capabilities: vec![], tools }
}

#[test]
fn test_with_policy() {
    let aegis = Aegis::new();
    let aegis = aegis.with_policy(&policy(), "weather_fetch");
    assert!(aegis.grants().has_http());
}

#[test]
fn default_sandbox_denies_all_privileged_functions() {
    let s = Aegis::new().engine_setup();
    assert!(!s.http_get && !s.kv_set && !s.kv_get && !s.file_read && !s.file_write && !s.file_list);
    assert_eq!(s.max_operations, 1_000_000);
    let d = Aegis::default().engine_setup();
    assert!(!d.http_get && !d.kv_get);
}

#[test]
fn tool_capabilities_open_host_functions() {
    let a = Aegis::new().with_policy(&policy(), "weather_fetch");
    let s = a.engine_setup();
    assert!(s.http_get && s.kv_set && s.kv_get);
    assert!(!s.file_read && !s.file_write && !s.file_list);
    assert_eq!(s.max_operations, 500);
    assert_eq!(a.limits().max_call_depth, 8);

    let f = Aegis::new().with_policy(&policy(), "file_tool").engine_setup();
    assert!(f.file_read && f.file_write && f.file_list && !f.http_get);
}

#[test]
fn unknown_tool_keeps_base_grants_without_policy() {
    let base = Aegis::new().with_policy(&policy(), "weather_fetch");
    let a = base.with_policy(&policy(), "no_such_tool");
    assert!(a.grants().has_http());
    assert_eq!(a.limits().max_operations, 500);
    // no policy: nothing is constrained
    assert!(a.check_domain("https://evil.com").is_ok());
    assert!(a.check_key("secret").is_ok());
    assert!(a.check_path("/etc/passwd").is_ok());
}

#[test]
fn checks_report_policy_refusals() {
    let a = Aegis::new().with_policy(&policy(), "weather_fetch");
    assert_eq!(a.check_domain("http://example.com").unwrap_err(), "Domain not allowed: http://example.com");
    assert!(a.check_domain("https://api.weather.com/today").is_ok());
    assert_eq!(a.check_key("secret:key").unwrap_err(), "Key prefix not allowed: secret:key");
    assert!(a.check_key("weather:today").is_ok());
    let f = Aegis::new().with_policy(&policy(), "file_tool");
    assert_eq!(f.check_path("/etc/passwd").unwrap_err(), "Path not allowed: /etc/passwd");
    assert!(f.check_path("/data/in.txt").is_ok());
}

#[test]
fn kv_reads_back_what_was_written() {
    let mut a = Aegis::new().with_policy(&policy(), "weather_fetch");
    assert_eq!(a.kv_set("weather:today", "sunny"), Ok(true));
    assert_eq!(a.kv_get("weather:today"), Ok("sunny".to_string()));
    assert_eq!(a.kv_set("weather:today", "rain"), Ok(true));
    assert_eq!(a.kv_get("weather:today"), Ok("rain".to_string()));
    assert_eq!(a.kv_get("weather:tomorrow"), Err("Key not found: weather:tomorrow".to_string()));
}

#[test]
fn kv_refuses_keys_outside_the_prefixes() {
    let mut a = Aegis::new().with_policy(&policy(), "weather_fetch");
    assert_eq!(a.kv_set("secret:key", "x"), Err("Key prefix not allowed: secret:key".to_string()));
    assert_eq!(a.kv_get("secret:key"), Err("Key prefix not allowed: secret:key".to_string()));
}

#[test]
fn fresh_sandbox_does_not_see_earlier_state() {
    let mut a = Aegis::new().with_policy(&policy(), "weather_fetch");
    a.kv_set("weather:x", "1").unwrap();
    let b = a.with_policy(&policy(), "weather_fetch");
    assert!(b.kv_get("weather:x").is_err());
}

#[test]
fn engine_setup_carries_all_limits() {
    let a = Aegis::new().with_policy(&policy(), "weather_fetch");
    let s = a.engine_setup();
    assert_eq!(s.max_operations, 500);
    assert_eq!(s.max_call_depth, 8);
    assert_eq!(s.max_memory_mb, 32);
    assert_eq!(s.timeout_seconds, 5);
    assert_eq!(s.memory_limit_bytes(), 32 * 1024 * 1024);
    assert!(!s.timed_out(5_000));
    assert!(s.timed_out(5_001));
    let d = Aegis::new().engine_setup();
    assert_eq!((d.max_call_depth, d.max_memory_mb, d.timeout_seconds), (64, 64, 30));
}

#[test]
fn memory_budget_saturates() {
    let mut tools = StrMap::new();
    tools.insert(
        "big".to_string(),
        ToolPolicy {
            resource_limits: ResourceLimits { max_memory_mb: usize::MAX, max_operations: 1, max_call_depth: 1, timeout_seconds: 0 },
            ..Default::default()
        },
    );
    let p = Policy { default_capabilities: vec![], tools };
    let s = Aegis::new().with_policy(&p, "big").engine_setup();
    assert_eq!(s.memory_limit_bytes(), usize::MAX);
    assert!(!s.timed_out(0));
    assert!(s.timed_out(1));
}

#[test]
fn script_errors_are_prefixed() {
    assert_eq!(aegis_ai_runtime::sandbox::script_error_message("boom"), "Script error: boom");
}

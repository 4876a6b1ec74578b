use aegis_ai_runtime::capabilities::{Capability, ResourceLimits};
use aegis_ai_runtime::policy::{Policy, ToolPolicy};
use aegis_ai_runtime::strmap::StrMap;

fn strings(v: &[&str]) -> Vec<String> {
    v.iter().map(|s| s.to_string()).collect()
}

/// The policy the original's fixtures describe: a default tool, a weather
/// fetcher and a file processor.
fn sample_policy() -> Policy {
    let mut tools = StrMap::new();
    tools.insert(
        "default".to_string(),
        ToolPolicy {
            capabilities: vec![Capability::HttpGet, Capability::KvSet, Capability::KvGet],
            ..Default::default()
        },
    );
    tools.insert(
        "weather_fetch".to_string(),
        ToolPolicy {
            capabilities: vec![Capability::HttpGet, Capability::KvSet],
            allowed_domains: strings(&["api.weather.com", "api.openweathermap.org"]),
            allowed_key_prefixes: strings(&["weather:"]),
            ..Default::default()
        },
    );
    tools.insert(
        "file_processor".to_string(),
        ToolPolicy {
            capabilities: vec![Capability::FileRead, Capability::FileWrite],
            allowed_paths: strings(&["/data/input/", "/data/output/"]),
            ..Default::default()
        },
    );
    Policy { default_capabilities: strings(&["log", "yield"]), tools }
}

#[test]
fn test_env_allowlist() {
    let tool = ToolPolicy {
        allowed_env_vars: vec!["API_TOKEN".to_string()],
        ..Default::default()
    };

    assert!(tool.allows_env("API_TOKEN"));
    assert!(!tool.allows_env("SSH_PRIVATE_KEY"));
}

#[test]
fn test_path_validation() {
    let policy = sample_policy();
    let tool = policy.get_tool("file_processor").unwrap();

    assert!(!tool.allows_path("/etc/passwd"), "should deny /etc/passwd");
    assert!(
        tool.allows_path("/data/input/file.txt"),
        "should allow /data/input/"
    );
}

#[test]
fn test_key_prefix_validation() {
    let policy = sample_policy();
    let tool = policy.get_tool("weather_fetch").unwrap();

    assert!(!tool.allows_key("secret"), "should deny secret key");
    assert!(
        tool.allows_key("weather:temp"),
        "should allow weather: prefix"
    );
}

#[test]
fn test_domain_validation() {
    let policy = sample_policy();
    let tool = policy.get_tool("weather_fetch").unwrap();

    assert!(
        !tool.allows_domain("https://evil.com/data"),
        "should deny evil.com"
    );
    assert!(
        tool.allows_domain("https://api.weather.com/data"),
        "should allow api.weather.com"
    );
}

#[test]
fn empty_allowlists_allow_everything() {
    let tool = ToolPolicy::default();
    assert!(tool.allows_path("/etc/passwd"));
    assert!(tool.allows_domain("https://evil.com"));
    assert!(tool.allows_key("anything"));
    assert!(tool.allows_env("HOME"));
}

#[test]
fn path_allowlist_requires_an_allowed_directory() {
    let tool = ToolPolicy {
        allowed_paths: strings(&["/data/input/"]),
        ..Default::default()
    };
    assert!(tool.allows_path("/data/input/x"));
    assert!(tool.allows_path("/data/input/a/b.txt"));
    assert!(tool.allows_path("/data/input/"));
    assert!(tool.allows_path("/data/input"));
    assert!(!tool.allows_path("/tmp/data/input/x"));
    assert!(!tool.allows_path("/data/input/../../etc/passwd"));
    assert!(!tool.allows_path("/data/input/.."));
    assert!(!tool.allows_path("/data/inputs"));
    assert!(!tool.allows_path("/data"));
    assert!(tool.allows_path("/data/input/..x/y"));
}

#[test]
fn path_entry_without_slash_is_a_directory() {
    let tool = ToolPolicy {
        allowed_paths: strings(&["/data"]),
        ..Default::default()
    };
    assert!(tool.allows_path("/data"));
    assert!(tool.allows_path("/data/x"));
    assert!(!tool.allows_path("/database"));
}

#[test]
fn domain_allowlist_matches_the_url_host() {
    let tool = ToolPolicy {
        allowed_domains: strings(&["api.weather.com"]),
        ..Default::default()
    };
    assert!(tool.allows_domain("https://api.weather.com/x"));
    assert!(tool.allows_domain("http://api.weather.com"));
    assert!(tool.allows_domain("https://eu.api.weather.com/x"));
    assert!(tool.allows_domain("https://api.weather.com:443/x"));
    assert!(tool.allows_domain("https://evil.com@api.weather.com/"));
    assert!(!tool.allows_domain("https://evil.com/?q=api.weather.com"));
    assert!(!tool.allows_domain("https://api.weather.com.evil.com/"));
    assert!(!tool.allows_domain("https://api.weather.com@evil.com/"));
    assert!(!tool.allows_domain("https://api.weather.com:1@evil.com/"));
    assert!(!tool.allows_domain("https://xapi.weather.com/"));
    assert!(!tool.allows_domain("https://api.weather.org"));
    assert!(!tool.allows_domain("ftp://api.weather.com/"));
    assert!(!tool.allows_domain("api.weather.com"));
}

#[test]
fn key_prefix_must_start_the_key() {
    let tool = ToolPolicy {
        allowed_key_prefixes: strings(&["weather:", "app:"]),
        ..Default::default()
    };
    assert!(tool.allows_key("app:x"));
    assert!(tool.allows_key("weather:"));
    assert!(!tool.allows_key("x:weather:"));
    assert!(!tool.allows_key("weather"));
}

#[test]
fn env_allowlist_needs_exact_names() {
    let tool = ToolPolicy {
        allowed_env_vars: strings(&["API_TOKEN"]),
        ..Default::default()
    };
    assert!(!tool.allows_env("API_TOKEN_2"));
    assert!(!tool.allows_env("API"));
}

#[test]
fn get_tool_finds_only_configured_tools() {
    let policy = sample_policy();
    assert!(policy.get_tool("weather_fetch").is_some());
    assert!(policy.get_tool("weather").is_none());
    assert!(policy.get_tool("").is_none());
    assert_eq!(policy.default_capabilities, vec!["log", "yield"]);
}

#[test]
fn inserting_a_tool_twice_keeps_the_later_policy() {
    let mut policy = sample_policy();
    policy.tools.insert(
        "weather_fetch".to_string(),
        ToolPolicy { requires_approval: true, ..Default::default() },
    );
    assert!(policy.get_tool("weather_fetch").unwrap().requires_approval);
    assert_eq!(policy.tools.len(), 3);
}

#[test]
fn default_tool_policy_has_default_limits() {
    let tool = ToolPolicy::default();
    assert_eq!(
        tool.resource_limits,
        ResourceLimits { max_memory_mb: 64, max_operations: 1_000_000, max_call_depth: 64, timeout_seconds: 30 }
    );
    assert!(!tool.requires_approval);
    assert!(tool.capabilities.is_empty());
}

#[test]
fn cloned_tool_policy_is_equal_field_by_field() {
    let policy = sample_policy();
    let tool = policy.get_tool("weather_fetch").unwrap();
    let copy = tool.clone();
    assert_eq!(copy.capabilities, tool.capabilities);
    assert_eq!(copy.allowed_domains, tool.allowed_domains);
    assert_eq!(copy.allowed_key_prefixes, tool.allowed_key_prefixes);
}

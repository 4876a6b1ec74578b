use aegis_ai_runtime::capabilities::Capability;
use aegis_ai_runtime::tools::http::{require_url, HttpGetTool, HttpPostTool};
use aegis_ai_runtime::url::{host_matches_domain, url_host, url_target};

#[test]
fn tool_names_and_capabilities() {
    let g = HttpGetTool::new(vec![]);
    let p = HttpPostTool::new(vec![]);
    assert_eq!(g.name(), "http_get");
    assert_eq!(p.name(), "http_post");
    assert_eq!(g.required_capabilities(), vec![Capability::HttpGet]);
    assert_eq!(p.required_capabilities(), vec![Capability::HttpPost]);
}

#[test]
fn host_must_contain_an_allowed_domain() {
    let g = HttpGetTool::new(vec!["weather.com".to_string()]);
    assert!(g.check_url("https://api.weather.com/forecast").is_ok());
    assert_eq!(g.check_url("https://evil.com/weather.com").unwrap_err(), "Domain not allowed: evil.com");
    assert_eq!(g.check_url("http://evil.com").unwrap_err(), "Domain not allowed: evil.com");
    let p = HttpPostTool::new(vec!["127.0.0.1".to_string()]);
    assert!(p.check_url("http://127.0.0.1:8080/ok").is_ok());
    assert_eq!(p.check_url("http://10.0.0.1/x?127.0.0.1").unwrap_err(), "Domain not allowed: 10.0.0.1");
}

#[test]
fn other_schemes_and_empty_lists_pass() {
    let g = HttpGetTool::new(vec!["weather.com".to_string()]);
    assert!(g.check_url("ftp://evil.com/").is_ok());
    assert!(g.check_url("evil.com").is_ok());
    let open = HttpGetTool::new(vec![]);
    assert!(open.check_url("https://anything.example/").is_ok());
}

#[test]
fn host_is_matched_as_domain_or_subdomain() {
    let g = HttpGetTool::new(vec!["weather.com".to_string()]);
    assert_eq!(g.check_url("https://evilweather.com/").unwrap_err(), "Domain not allowed: evilweather.com");
    assert_eq!(g.check_url("https://weather.com.evil.org/").unwrap_err(), "Domain not allowed: weather.com.evil.org");
    assert!(g.check_url("https://weather.com:8443/").is_ok());
}

#[test]
fn url_argument_is_required() {
    assert_eq!(require_url(Some("http://x")), Ok("http://x"));
    assert_eq!(require_url(None), Err("Missing 'url' argument".to_string()));
}

#[test]
fn url_hosts() {
    assert_eq!(url_host("https://a.b.c/x"), Some("a.b.c"));
    assert_eq!(url_host("http://u:p@h.example:80/x?y#z"), Some("h.example"));
    assert_eq!(url_host("http://h.example?q=/x"), Some("h.example"));
    assert_eq!(url_host("https://h.example#f"), Some("h.example"));
    assert_eq!(url_host("https://"), Some(""));
    assert_eq!(url_host("ftp://h"), None);
    assert!(host_matches_domain("a.b.c", "b.c"));
    assert!(host_matches_domain("b.c", "b.c"));
    assert!(!host_matches_domain("ab.c", "b.c"));
}

#[test]
fn refusal_names_what_follows_the_scheme() {
    let g = HttpGetTool::new(vec!["weather.com".to_string()]);
    assert_eq!(g.check_url("https://evil.com:8443/x").unwrap_err(), "Domain not allowed: evil.com:8443");
    assert_eq!(g.check_url("http://u@evil.com?q=1").unwrap_err(), "Domain not allowed: u@evil.com?q=1");
    assert_eq!(url_target("https://a:1/b"), Some("a:1"));
    assert_eq!(url_target("mailto:x"), None);
}

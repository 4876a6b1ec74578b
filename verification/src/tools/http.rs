//! The HTTP tools: their names, the capability each needs, and the domain
//! check they make on a URL before a request is sent.
use vstd::prelude::*;
use crate::capabilities::Capability;
use crate::policy::{host_allowed, host_allowed_by, strings_view};
use crate::text::join2;
use crate::url::{host_of_url, target_of_url, url_host, url_target};

verus! {

/// Sends GET requests to allowed domains.
pub struct HttpGetTool {
    allowed_domains: Vec<String>,
}

/// Sends POST requests to allowed domains.
pub struct HttpPostTool {
    allowed_domains: Vec<String>,
}

/// What the domain check answers for `url` against the list `allowed`: URLs
/// that are not `http` or `https` pass (no request can be sent to them); an
/// `http` or `https` URL passes when its host is allowed, and the refusal names
/// what follows the scheme up to the first `/`.
pub open spec fn url_check(allowed: Seq<Seq<char>>, url: Seq<char>) -> Result<(), Seq<char>> {
    match host_of_url(url) {
        None => Ok(()),
        Some(h) => if host_allowed(allowed, h) {
            Ok(())
        } else {
            Err("Domain not allowed: "@ + target_of_url(url).unwrap())
        },
    }
}

fn check_url_against(allowed: &Vec<String>, url: &str) -> (r: Result<(), String>)
    ensures
        match url_check(strings_view(allowed@), url@) {
            Ok(()) => r is Ok,
            Err(m) => r matches Err(e) && e@ == m,
        },
{
    match url_host(url) {
        None => Ok(()),
        Some(host) => if host_allowed_by(allowed, host) {
            Ok(())
        } else {
            match url_target(url) {
                Some(target) => Err(join2("Domain not allowed: ", target)),
                None => Err(join2("Domain not allowed: ", host)),
            }
        },
    }
}

/// The `url` argument of a tool call, which the call must give as a string.
pub fn require_url(url: Option<&str>) -> (r: Result<&str, String>)
    ensures
        match url {
            Some(u) => r == Ok::<&str, String>(u),
            None => r matches Err(e) && e@ == "Missing 'url' argument"@,
        },
{
    match url {
        Some(u) => Ok(u),
        None => Err(String::from_str("Missing 'url' argument")),
    }
}

impl HttpGetTool {
    pub fn new(allowed_domains: Vec<String>) -> (t: Self)
        ensures
            t.allowed_domains() == strings_view(allowed_domains@),
    {
        HttpGetTool { allowed_domains }
    }

    /// The domains requests may go to (all when empty).
    pub closed spec fn allowed_domains(&self) -> Seq<Seq<char>> {
        strings_view(self.allowed_domains@)
    }

    pub fn name(&self) -> (r: &'static str)
        ensures
            r@ == "http_get"@,
    {
        "http_get"
    }

    pub fn required_capabilities(&self) -> (r: Vec<Capability>)
        ensures
            r@ == seq![Capability::HttpGet],
    {
        let mut v: Vec<Capability> = Vec::new();
        v.push(Capability::HttpGet);
        v
    }

    /// The domain check made before a request to `url` is sent.
    pub fn check_url(&self, url: &str) -> (r: Result<(), String>)
        ensures
            match url_check(self.allowed_domains(), url@) {
                Ok(()) => r is Ok,
                Err(m) => r matches Err(e) && e@ == m,
            },
    {
        check_url_against(&self.allowed_domains, url)
    }
}

impl HttpPostTool {
    pub fn new(allowed_domains: Vec<String>) -> (t: Self)
        ensures
            t.allowed_domains() == strings_view(allowed_domains@),
    {
        HttpPostTool { allowed_domains }
    }

    /// The domains requests may go to (all when empty).
    pub closed spec fn allowed_domains(&self) -> Seq<Seq<char>> {
        strings_view(self.allowed_domains@)
    }

    pub fn name(&self) -> (r: &'static str)
        ensures
            r@ == "http_post"@,
    {
        "http_post"
    }

    pub fn required_capabilities(&self) -> (r: Vec<Capability>)
        ensures
            r@ == seq![Capability::HttpPost],
    {
        let mut v: Vec<Capability> = Vec::new();
        v.push(Capability::HttpPost);
        v
    }

    /// The domain check made before a request to `url` is sent.
    pub fn check_url(&self, url: &str) -> (r: Result<(), String>)
        ensures
            match url_check(self.allowed_domains(), url@) {
                Ok(()) => r is Ok,
                Err(m) => r matches Err(e) && e@ == m,
            },
    {
        check_url_against(&self.allowed_domains, url)
    }
}

} // verus!

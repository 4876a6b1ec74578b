//! Per-tool policies: granted capabilities, limits, and the allowlists that
//! constrain paths, domains, keys and environment variables.
use vstd::prelude::*;
use crate::capabilities::{Capability, ResourceLimits};
use crate::strmap::StrMap;
use crate::text::{chars_of, is_prefix_of, starts_with, str_eq};
use crate::url::{domain_matches, host_matches_domain, host_of_url, url_host};

verus! {

/// What one tool may do.
#[derive(Debug)]
pub struct ToolPolicy {
    pub capabilities: Vec<Capability>,
    pub resource_limits: ResourceLimits,
    pub requires_approval: bool,
    pub allowed_paths: Vec<String>,
    pub allowed_domains: Vec<String>,
    pub allowed_key_prefixes: Vec<String>,
    pub allowed_env_vars: Vec<String>,
}

/// A tool policy with its strings seen as character sequences.
pub struct ToolPolicyView {
    pub capabilities: Seq<Capability>,
    pub resource_limits: ResourceLimits,
    pub requires_approval: bool,
    pub allowed_paths: Seq<Seq<char>>,
    pub allowed_domains: Seq<Seq<char>>,
    pub allowed_key_prefixes: Seq<Seq<char>>,
    pub allowed_env_vars: Seq<Seq<char>>,
}

/// The character sequences of a list of strings.
pub open spec fn strings_view(v: Seq<String>) -> Seq<Seq<char>> {
    v.map_values(|s: String| s@)
}

impl View for ToolPolicy {
    type V = ToolPolicyView;

    open spec fn view(&self) -> ToolPolicyView {
        ToolPolicyView {
            capabilities: self.capabilities@,
            resource_limits: self.resource_limits,
            requires_approval: self.requires_approval,
            allowed_paths: strings_view(self.allowed_paths@),
            allowed_domains: strings_view(self.allowed_domains@),
            allowed_key_prefixes: strings_view(self.allowed_key_prefixes@),
            allowed_env_vars: strings_view(self.allowed_env_vars@),
        }
    }
}

/// `dir` ends in a `/`.
pub open spec fn ends_in_slash(dir: Seq<char>) -> bool {
    dir.len() > 0 && dir.last() == '/'
}

/// `path` lies in the directory `dir`: it is `dir` itself (with or without its
/// final `/`), or it continues `dir` past a `/`.
pub open spec fn within_dir(dir: Seq<char>, path: Seq<char>) -> bool {
    ||| path == dir
    ||| is_prefix_of(dir, path) && path.len() > dir.len() && (ends_in_slash(dir) || path[dir.len() as int] == '/')
    ||| ends_in_slash(dir) && path == dir.drop_last()
}

/// `path` has a `..` segment at index `i`.
pub open spec fn parent_segment_at(path: Seq<char>, i: int) -> bool {
    &&& 0 <= i
    &&& i + 2 <= path.len()
    &&& path[i] == '.'
    &&& path[i + 1] == '.'
    &&& (i == 0 || path[i - 1] == '/')
    &&& (i + 2 == path.len() || path[i + 2] == '/')
}

/// `path` has a `..` segment, so it could climb out of a directory.
pub open spec fn has_parent_segment(path: Seq<char>) -> bool {
    exists|i: int| parent_segment_at(path, i)
}

/// A path is allowed when the list is empty, or it has no `..` segment and lies
/// in a listed directory.
pub open spec fn path_allowed(allowed: Seq<Seq<char>>, path: Seq<char>) -> bool {
    allowed.len() == 0 || (!has_parent_segment(path) && exists|i: int|
        0 <= i < allowed.len() && within_dir(#[trigger] allowed[i], path))
}

/// A host is allowed when the list is empty, or it is a listed domain or a
/// subdomain of one.
pub open spec fn host_allowed(allowed: Seq<Seq<char>>, host: Seq<char>) -> bool {
    allowed.len() == 0 || exists|i: int| 0 <= i < allowed.len() && domain_matches(#[trigger] allowed[i], host)
}

/// A URL is allowed when the list is empty, or it is an `http` or `https` URL
/// whose host is allowed.
pub open spec fn domain_allowed(allowed: Seq<Seq<char>>, url: Seq<char>) -> bool {
    allowed.len() == 0 || (host_of_url(url) matches Some(h) && host_allowed(allowed, h))
}

/// A key is allowed when the list is empty, or it starts with some entry.
pub open spec fn key_allowed(allowed: Seq<Seq<char>>, key: Seq<char>) -> bool {
    allowed.len() == 0 || exists|i: int| 0 <= i < allowed.len() && is_prefix_of(#[trigger] allowed[i], key)
}

/// A variable name is allowed when the list is empty, or it is listed.
pub open spec fn env_allowed(allowed: Seq<Seq<char>>, name: Seq<char>) -> bool {
    allowed.len() == 0 || allowed.contains(name)
}

fn clone_strings(v: &Vec<String>) -> (r: Vec<String>)
    ensures
        r@ == v@,
{
    let mut r: Vec<String> = Vec::new();
    let mut i: usize = 0;
    while i < v.len()
        invariant
            i <= v@.len(),
            r@ == v@.subrange(0, i as int),
        decreases v@.len() - i,
    {
        r.push(v[i].clone());
        i = i + 1;
        assert(r@ =~= v@.subrange(0, i as int));
    }
    assert(r@ =~= v@);
    r
}

fn clone_capabilities(v: &Vec<Capability>) -> (r: Vec<Capability>)
    ensures
        r@ == v@,
{
    let mut r: Vec<Capability> = Vec::new();
    let mut i: usize = 0;
    while i < v.len()
        invariant
            i <= v@.len(),
            r@ == v@.subrange(0, i as int),
        decreases v@.len() - i,
    {
        r.push(v[i]);
        i = i + 1;
        assert(r@ =~= v@.subrange(0, i as int));
    }
    assert(r@ =~= v@);
    r
}

impl Clone for ToolPolicy {
    fn clone(&self) -> (r: Self)
        ensures
            r.capabilities@ == self.capabilities@,
            r.resource_limits == self.resource_limits,
            r.requires_approval == self.requires_approval,
            r.allowed_paths@ == self.allowed_paths@,
            r.allowed_domains@ == self.allowed_domains@,
            r.allowed_key_prefixes@ == self.allowed_key_prefixes@,
            r.allowed_env_vars@ == self.allowed_env_vars@,
    {
        ToolPolicy {
            capabilities: clone_capabilities(&self.capabilities),
            resource_limits: self.resource_limits,
            requires_approval: self.requires_approval,
            allowed_paths: clone_strings(&self.allowed_paths),
            allowed_domains: clone_strings(&self.allowed_domains),
            allowed_key_prefixes: clone_strings(&self.allowed_key_prefixes),
            allowed_env_vars: clone_strings(&self.allowed_env_vars),
        }
    }
}

impl Default for ToolPolicy {
    fn default() -> (t: Self)
        ensures
            t.capabilities@.len() == 0,
            t.resource_limits == (ResourceLimits {
                max_memory_mb: 64,
                max_operations: 1_000_000,
                max_call_depth: 64,
                timeout_seconds: 30,
            }),
            !t.requires_approval,
            t.allowed_paths@.len() == 0,
            t.allowed_domains@.len() == 0,
            t.allowed_key_prefixes@.len() == 0,
            t.allowed_env_vars@.len() == 0,
    {
        ToolPolicy {
            capabilities: Vec::new(),
            resource_limits: ResourceLimits::default(),
            requires_approval: false,
            allowed_paths: Vec::new(),
            allowed_domains: Vec::new(),
            allowed_key_prefixes: Vec::new(),
            allowed_env_vars: Vec::new(),
        }
    }
}

/// Whether `p` has a `..` segment.
fn has_parent_segment_exec(p: &Vec<char>) -> (r: bool)
    ensures
        r == has_parent_segment(p@),
{
    let n = p.len();
    if n < 2 {
        assert forall|i: int| !parent_segment_at(p@, i) by {}
        return false;
    }
    let mut i: usize = 0;
    while i < n - 1
        invariant
            n == p@.len(),
            n >= 2,
            i <= n - 1,
            forall|j: int| 0 <= j < i ==> !parent_segment_at(p@, j),
        decreases n - i,
    {
        if p[i] == '.' && p[i + 1] == '.' && (i == 0 || p[i - 1] == '/') && (i + 2 == n || p[i + 2] == '/') {
            assert(parent_segment_at(p@, i as int));
            return true;
        }
        i = i + 1;
    }
    assert forall|j: int| !parent_segment_at(p@, j) by {}
    false
}

/// Whether `path` lies in the directory `dir`.
fn within_dir_exec(dir: &str, path: &str) -> (r: bool)
    ensures
        r == within_dir(dir@, path@),
{
    let dc = chars_of(dir);
    let pc = chars_of(path);
    if str_eq(path, dir) {
        return true;
    }
    let slash = dc.len() > 0 && dc[dc.len() - 1] == '/';
    if pc.len() > dc.len() && starts_with(path, dir) && (slash || pc[dc.len()] == '/') {
        return true;
    }
    if slash && pc.len() == dc.len() - 1 && starts_with(dir, path) {
        assert(dir@.drop_last() =~= dir@.subrange(0, path@.len() as int));
        return true;
    }
    proof {
        if ends_in_slash(dir@) && path@ == dir@.drop_last() {
            assert(dir@.subrange(0, path@.len() as int) =~= path@);
        }
    }
    false
}

/// Whether `host` is allowed by the list `allowed` (all hosts when it is empty).
pub fn host_allowed_by(allowed: &Vec<String>, host: &str) -> (r: bool)
    ensures
        r == host_allowed(strings_view(allowed@), host@),
{
    if allowed.len() == 0 {
        return true;
    }
    let mut i: usize = 0;
    while i < allowed.len()
        invariant
            i <= allowed@.len(),
            forall|j: int| 0 <= j < i ==> !domain_matches(allowed@[j]@, host@),
        decreases allowed@.len() - i,
    {
        if host_matches_domain(host, allowed[i].as_str()) {
            assert(strings_view(allowed@)[i as int] == allowed@[i as int]@);
            return true;
        }
        i = i + 1;
    }
    assert forall|j: int| 0 <= j < allowed@.len() implies !domain_matches(strings_view(allowed@)[j], host@) by {
        assert(strings_view(allowed@)[j] == allowed@[j]@);
    }
    false
}

impl ToolPolicy {
    /// Whether `path` may be read, written or listed.
    pub fn allows_path(&self, path: &str) -> (r: bool)
        ensures
            r == path_allowed(self@.allowed_paths, path@),
    {
        let list = &self.allowed_paths;
        if list.len() == 0 {
            return true;
        }
        let pc = chars_of(path);
        if has_parent_segment_exec(&pc) {
            return false;
        }
        let mut i: usize = 0;
        while i < list.len()
            invariant
                list@ == self.allowed_paths@,
                !has_parent_segment(path@),
                i <= list@.len(),
                forall|j: int| 0 <= j < i ==> !within_dir(list@[j]@, path@),
            decreases list@.len() - i,
        {
            if within_dir_exec(list[i].as_str(), path) {
                assert(strings_view(list@)[i as int] == list@[i as int]@);
                return true;
            }
            i = i + 1;
        }
        assert forall|j: int| 0 <= j < list@.len() implies !within_dir(strings_view(list@)[j], path@) by {
            assert(strings_view(list@)[j] == list@[j]@);
        }
        false
    }

    /// Whether an HTTP request to `url` is allowed.
    pub fn allows_domain(&self, url: &str) -> (r: bool)
        ensures
            r == domain_allowed(self@.allowed_domains, url@),
    {
        if self.allowed_domains.len() == 0 {
            return true;
        }
        match url_host(url) {
            None => false,
            Some(host) => host_allowed_by(&self.allowed_domains, host),
        }
    }

    /// Whether the key-value store may be used with `key`.
    pub fn allows_key(&self, key: &str) -> (r: bool)
        ensures
            r == key_allowed(self@.allowed_key_prefixes, key@),
    {
        let list = &self.allowed_key_prefixes;
        if list.len() == 0 {
            return true;
        }
        let mut i: usize = 0;
        while i < list.len()
            invariant
                list@ == self.allowed_key_prefixes@,
                i <= list@.len(),
                forall|j: int| 0 <= j < i ==> !is_prefix_of(list@[j]@, key@),
            decreases list@.len() - i,
        {
            if starts_with(key, list[i].as_str()) {
                assert(strings_view(list@)[i as int] == list@[i as int]@);
                return true;
            }
            i = i + 1;
        }
        assert forall|j: int| 0 <= j < list@.len() implies !is_prefix_of(
            strings_view(list@)[j],
            key@,
        ) by {
            assert(strings_view(list@)[j] == list@[j]@);
        }
        false
    }

    /// Whether the environment variable `name` may be read.
    pub fn allows_env(&self, name: &str) -> (r: bool)
        ensures
            r == env_allowed(self@.allowed_env_vars, name@),
    {
        let list = &self.allowed_env_vars;
        if list.len() == 0 {
            return true;
        }
        let mut i: usize = 0;
        while i < list.len()
            invariant
                list@ == self.allowed_env_vars@,
                i <= list@.len(),
                forall|j: int| 0 <= j < i ==> list@[j]@ != name@,
            decreases list@.len() - i,
        {
            if str_eq(list[i].as_str(), name) {
                assert(strings_view(list@)[i as int] == name@);
                return true;
            }
            i = i + 1;
        }
        assert(!strings_view(list@).contains(name@));
        false
    }
}

/// Where the list is not empty, a path with a `..` segment is refused, and an
/// allowed path lies in one of the listed directories.
pub proof fn lemma_allowed_paths_stay_inside(allowed: Seq<Seq<char>>, path: Seq<char>)
    requires
        allowed.len() > 0,
    ensures
        has_parent_segment(path) ==> !path_allowed(allowed, path),
        path_allowed(allowed, path) ==> exists|i: int| 0 <= i < allowed.len() && within_dir(#[trigger] allowed[i], path),
{
}

/// Where the list is not empty, an allowed URL is an `http` or `https` URL
/// whose host is a listed domain or ends in `.` and a listed domain.
pub proof fn lemma_allowed_urls_reach_listed_domains(allowed: Seq<Seq<char>>, url: Seq<char>)
    requires
        allowed.len() > 0,
        domain_allowed(allowed, url),
    ensures
        host_of_url(url) is Some,
        exists|i: int| 0 <= i < allowed.len() && {
            let h = host_of_url(url).unwrap();
            let d = #[trigger] allowed[i];
            h == d || (h.len() > d.len() && h[h.len() - d.len() - 1] == '.' && h.subrange(h.len() - d.len(), h.len() as int) == d)
        },
{
    let h = host_of_url(url).unwrap();
    let i = choose|i: int| 0 <= i < allowed.len() && domain_matches(allowed[i], h);
    assert(domain_matches(allowed[i], h));
}

/// Path allowlist, character by character: with a non-empty list, a path is
/// allowed exactly when no segment of it is `..` and, for some listed entry
/// `d` (any of them), the path is `d`, or starts with `d` and goes on past a
/// `/` (the last character of `d` or the next one of the path), or is `d`
/// without its final `/`. With an empty list every path is allowed.
pub proof fn law_path_allowlist(allowed: Seq<Seq<char>>, path: Seq<char>)
    ensures
        allowed.len() == 0 ==> path_allowed(allowed, path),
        allowed.len() > 0 ==> (path_allowed(allowed, path) <==> (
            (forall|j: int|
                0 <= j && j + 2 <= path.len() && #[trigger] path[j] == '.' && path[j + 1] == '.' ==> !(
                (j == 0 || path[j - 1] == '/') && (j + 2 == path.len() || path[j + 2] == '/')))
            && exists|i: int|
                0 <= i < allowed.len() && {
                    let d = #[trigger] allowed[i];
                    ||| path == d
                    ||| path.len() > d.len() && path.subrange(0, d.len() as int) == d && ((d.len() > 0
                        && d[d.len() - 1] == '/') || path[d.len() as int] == '/')
                    ||| d.len() > 0 && d[d.len() - 1] == '/' && path == d.subrange(0, d.len() - 1)
                })),
{
    if allowed.len() > 0 {
        if !has_parent_segment(path) {
            assert forall|j: int|
                0 <= j && j + 2 <= path.len() && #[trigger] path[j] == '.' && path[j + 1] == '.' implies !(
                (j == 0 || path[j - 1] == '/') && (j + 2 == path.len() || path[j + 2] == '/')) by {
                if (j == 0 || path[j - 1] == '/') && (j + 2 == path.len() || path[j + 2] == '/') {
                    assert(parent_segment_at(path, j));
                }
            }
        } else {
            let j = choose|j: int| parent_segment_at(path, j);
            assert(path[j] == '.');
        }
        assert forall|d: Seq<char>| #![trigger within_dir(d, path)]
            within_dir(d, path) <==> {
                ||| path == d
                ||| path.len() > d.len() && path.subrange(0, d.len() as int) == d && ((d.len() > 0
                    && d[d.len() - 1] == '/') || path[d.len() as int] == '/')
                ||| d.len() > 0 && d[d.len() - 1] == '/' && path == d.subrange(0, d.len() - 1)
            } by {
            if d.len() > 0 {
                assert(d.drop_last() =~= d.subrange(0, d.len() - 1));
            }
        }
        if path_allowed(allowed, path) {
            let i = choose|i: int| 0 <= i < allowed.len() && within_dir(allowed[i], path);
            assert(within_dir(allowed[i], path));
        }
    }
}

/// Host allowlist, character by character: with a non-empty list, a host is
/// allowed exactly when, for some listed domain `d` (any of them), the host is
/// `d` or ends in `.` followed by `d`. With an empty list every host is allowed.
pub proof fn law_host_allowlist(allowed: Seq<Seq<char>>, host: Seq<char>)
    ensures
        allowed.len() == 0 ==> host_allowed(allowed, host),
        allowed.len() > 0 ==> (host_allowed(allowed, host) <==> exists|i: int|
            0 <= i < allowed.len() && {
                let d = #[trigger] allowed[i];
                ||| host == d
                ||| host.len() > d.len() && host[host.len() - d.len() - 1] == '.' && host.subrange(
                    host.len() - d.len(),
                    host.len() as int,
                ) == d
            }),
{
    if host_allowed(allowed, host) && allowed.len() > 0 {
        let i = choose|i: int| 0 <= i < allowed.len() && domain_matches(allowed[i], host);
        assert(domain_matches(allowed[i], host));
    }
}

/// URL allowlist: with a non-empty list, a URL is allowed exactly when it is an
/// `http` or `https` URL whose host is, for some listed domain `d` (any of
/// them), `d` or ends in `.` followed by `d`. With an empty list every URL is
/// allowed.
pub proof fn law_domain_allowlist(allowed: Seq<Seq<char>>, url: Seq<char>)
    ensures
        allowed.len() == 0 ==> domain_allowed(allowed, url),
        allowed.len() > 0 ==> (domain_allowed(allowed, url) <==> (host_of_url(url) matches Some(h) && exists|i: int|
            0 <= i < allowed.len() && {
                let d = #[trigger] allowed[i];
                ||| h == d
                ||| h.len() > d.len() && h[h.len() - d.len() - 1] == '.' && h.subrange(
                    h.len() - d.len(),
                    h.len() as int,
                ) == d
            })),
{
    if let Some(h) = host_of_url(url) {
        law_host_allowlist(allowed, h);
    }
}

/// Key allowlist, character by character: with a non-empty list, a key is
/// allowed exactly when it begins with some listed prefix (any of them). With
/// an empty list every key is allowed.
pub proof fn law_key_allowlist(allowed: Seq<Seq<char>>, key: Seq<char>)
    ensures
        allowed.len() == 0 ==> key_allowed(allowed, key),
        allowed.len() > 0 ==> (key_allowed(allowed, key) <==> exists|i: int|
            0 <= i < allowed.len() && (#[trigger] allowed[i]).len() <= key.len() && key.subrange(
                0,
                allowed[i].len() as int,
            ) == allowed[i]),
{
    if key_allowed(allowed, key) && allowed.len() > 0 {
        let i = choose|i: int| 0 <= i < allowed.len() && is_prefix_of(allowed[i], key);
        assert(is_prefix_of(allowed[i], key));
    }
}

/// Environment allowlist: with a non-empty list, a name is allowed exactly when
/// it equals some listed name (any of them). With an empty list every name is
/// allowed.
pub proof fn law_env_allowlist(allowed: Seq<Seq<char>>, name: Seq<char>)
    ensures
        allowed.len() == 0 ==> env_allowed(allowed, name),
        allowed.len() > 0 ==> (env_allowed(allowed, name) <==> exists|i: int|
            0 <= i < allowed.len() && #[trigger] allowed[i] == name),
{
    if env_allowed(allowed, name) && allowed.len() > 0 {
        let i = choose|i: int| 0 <= i < allowed.len() && allowed[i] == name;
        assert(allowed[i] == name);
    }
    if exists|i: int| 0 <= i < allowed.len() && #[trigger] allowed[i] == name {
        let i = choose|i: int| 0 <= i < allowed.len() && allowed[i] == name;
        assert(allowed.contains(name));
    }
}

/// Policies for all tools, by tool name.
pub struct Policy {
    pub default_capabilities: Vec<String>,
    pub tools: StrMap<ToolPolicy>,
}

impl Policy {
    pub open spec fn wf(&self) -> bool {
        self.tools.wf()
    }

    /// The policy of the tool called `name`.
    pub fn get_tool(&self, name: &str) -> (r: Option<&ToolPolicy>)
        requires
            self.wf(),
        ensures
            r == (if self.tools@.contains_key(name@) {
                Some(&self.tools@[name@])
            } else {
                None::<&ToolPolicy>
            }),
    {
        self.tools.get(name)
    }
}

} // verus!

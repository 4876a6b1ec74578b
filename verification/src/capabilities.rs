//! Capabilities a script may be granted, the set of grants of a sandbox, and
//! its resource limits.
use vstd::prelude::*;

verus! {

/// A permission to use one kind of host operation.
#[derive(Debug, Clone, Copy, PartialEq, Eq, Hash, Structural)]
pub enum Capability {
    HttpGet,
    HttpPost,
    Http,
    FileRead,
    FileWrite,
    FileList,
    KvGet,
    KvSet,
    Exec,
    Env,
}

/// The configuration name of a capability.
pub open spec fn capability_name(c: Capability) -> Seq<char> {
    match c {
        Capability::HttpGet => "http_get"@,
        Capability::HttpPost => "http_post"@,
        Capability::Http => "http"@,
        Capability::FileRead => "file_read"@,
        Capability::FileWrite => "file_write"@,
        Capability::FileList => "file_list"@,
        Capability::KvGet => "kv_get"@,
        Capability::KvSet => "kv_set"@,
        Capability::Exec => "exec"@,
        Capability::Env => "env"@,
    }
}

/// Capabilities that open the HTTP host function: `HttpGet` and `HttpPost`
/// (the bare `Http` capability does not).
pub open spec fn is_http_capability(c: Capability) -> bool {
    c == Capability::HttpGet || c == Capability::HttpPost
}

impl Capability {
    /// The name under which the capability appears in a policy.
    pub fn name(&self) -> (r: &'static str)
        ensures
            r@ == capability_name(*self),
    {
        match self {
            Capability::HttpGet => "http_get",
            Capability::HttpPost => "http_post",
            Capability::Http => "http",
            Capability::FileRead => "file_read",
            Capability::FileWrite => "file_write",
            Capability::FileList => "file_list",
            Capability::KvGet => "kv_get",
            Capability::KvSet => "kv_set",
            Capability::Exec => "exec",
            Capability::Env => "env",
        }
    }

    /// Both are the same kind of capability.
    pub fn matches(&self, other: &Capability) -> (r: bool)
        ensures
            r == (*self == *other),
    {
        *self == *other
    }

    pub fn is_http(&self) -> (r: bool)
        ensures
            r == is_http_capability(*self),
    {
        match self {
            Capability::HttpGet | Capability::HttpPost => true,
            _ => false,
        }
    }

    pub fn is_file_read(&self) -> (r: bool)
        ensures
            r == (*self == Capability::FileRead),
    {
        match self {
            Capability::FileRead => true,
            _ => false,
        }
    }

    pub fn is_file_write(&self) -> (r: bool)
        ensures
            r == (*self == Capability::FileWrite),
    {
        match self {
            Capability::FileWrite => true,
            _ => false,
        }
    }

    pub fn is_file_list(&self) -> (r: bool)
        ensures
            r == (*self == Capability::FileList),
    {
        match self {
            Capability::FileList => true,
            _ => false,
        }
    }

    pub fn is_kv_set(&self) -> (r: bool)
        ensures
            r == (*self == Capability::KvSet),
    {
        match self {
            Capability::KvSet => true,
            _ => false,
        }
    }

    pub fn is_kv_get(&self) -> (r: bool)
        ensures
            r == (*self == Capability::KvGet),
    {
        match self {
            Capability::KvGet => true,
            _ => false,
        }
    }
}

/// Distinct capabilities have distinct names, so a name identifies its capability.
pub proof fn lemma_capability_name_injective(a: Capability, b: Capability)
    ensures
        capability_name(a) == capability_name(b) <==> a == b,
{
    reveal_strlit("http_get");
    reveal_strlit("http_post");
    reveal_strlit("http");
    reveal_strlit("file_read");
    reveal_strlit("file_write");
    reveal_strlit("file_list");
    reveal_strlit("kv_get");
    reveal_strlit("kv_set");
    reveal_strlit("exec");
    reveal_strlit("env");
    let n = |c: Capability| capability_name(c);
    assert(n(Capability::HttpGet).len() == 8 && n(Capability::HttpGet)[5] == 'g');
    assert(n(Capability::HttpPost).len() == 9 && n(Capability::HttpPost)[5] == 'p');
    assert(n(Capability::Http).len() == 4 && n(Capability::Http)[1] == 't');
    assert(n(Capability::FileRead).len() == 9 && n(Capability::FileRead)[5] == 'r');
    assert(n(Capability::FileWrite).len() == 10);
    assert(n(Capability::FileList).len() == 9 && n(Capability::FileList)[5] == 'l');
    assert(n(Capability::KvGet).len() == 6 && n(Capability::KvGet)[3] == 'g');
    assert(n(Capability::KvSet).len() == 6 && n(Capability::KvSet)[3] == 's');
    assert(n(Capability::Exec).len() == 4 && n(Capability::Exec)[1] == 'x');
    assert(n(Capability::Env).len() == 3);
    if capability_name(a) == capability_name(b) {
        let na = capability_name(a);
        let nb = capability_name(b);
        assert(na.len() == nb.len() && na[1] == nb[1] && na[3] == nb[3] && na[5] == nb[5]);
    }
}

/// The capabilities granted to one sandbox.
#[derive(Debug)]
pub struct GrantSet {
    caps: Vec<Capability>,
}

impl View for GrantSet {
    type V = Seq<Capability>;

    closed spec fn view(&self) -> Seq<Capability> {
        self.caps@
    }
}

impl Default for GrantSet {
    fn default() -> (g: Self)
        ensures
            g@ == Seq::<Capability>::empty(),
    {
        GrantSet { caps: Vec::new() }
    }
}

impl Clone for GrantSet {
    fn clone(&self) -> (g: Self)
        ensures
            g@ == self@,
    {
        let mut caps: Vec<Capability> = Vec::new();
        let mut i: usize = 0;
        while i < self.caps.len()
            invariant
                i <= self.caps@.len(),
                caps@ == self.caps@.subrange(0, i as int),
            decreases self.caps@.len() - i,
        {
            caps.push(self.caps[i]);
            i = i + 1;
            assert(caps@ =~= self.caps@.subrange(0, i as int));
        }
        assert(caps@ =~= self.caps@);
        GrantSet { caps }
    }
}

impl GrantSet {
    /// Grants exactly `caps`.
    pub fn new(caps: Vec<Capability>) -> (g: Self)
        ensures
            g@ == caps@,
    {
        GrantSet { caps }
    }

    /// Whether `want` is granted, or with `http`, whether an HTTP capability is.
    fn any_granted(&self, want: Capability, http: bool) -> (r: bool)
        ensures
            r == (if http {
                self@.contains(Capability::HttpGet) || self@.contains(Capability::HttpPost)
            } else {
                self@.contains(want)
            }),
    {
        let mut i: usize = 0;
        while i < self.caps.len()
            invariant
                i <= self.caps@.len(),
                forall|j: int|
                    0 <= j < i ==> !(if http {
                        is_http_capability(self.caps@[j])
                    } else {
                        self.caps@[j] == want
                    }),
            decreases self.caps@.len() - i,
        {
            let c = self.caps[i];
            let hit = if http {
                c.is_http()
            } else {
                c.matches(&want)
            };
            if hit {
                assert(self.caps@[i as int] == c);
                return true;
            }
            i = i + 1;
        }
        false
    }

    /// `cap` is granted.
    pub fn has(&self, cap: &Capability) -> (r: bool)
        ensures
            r == self@.contains(*cap),
    {
        self.any_granted(*cap, false)
    }

    /// `HttpGet` or `HttpPost` is granted.
    pub fn has_http(&self) -> (r: bool)
        ensures
            r == (self@.contains(Capability::HttpGet) || self@.contains(Capability::HttpPost)),
    {
        self.any_granted(Capability::HttpGet, true)
    }

    pub fn has_file_read(&self) -> (r: bool)
        ensures
            r == self@.contains(Capability::FileRead),
    {
        self.any_granted(Capability::FileRead, false)
    }

    pub fn has_file_write(&self) -> (r: bool)
        ensures
            r == self@.contains(Capability::FileWrite),
    {
        self.any_granted(Capability::FileWrite, false)
    }

    pub fn has_file_list(&self) -> (r: bool)
        ensures
            r == self@.contains(Capability::FileList),
    {
        self.any_granted(Capability::FileList, false)
    }

    pub fn has_kv_set(&self) -> (r: bool)
        ensures
            r == self@.contains(Capability::KvSet),
    {
        self.any_granted(Capability::KvSet, false)
    }

    pub fn has_kv_get(&self) -> (r: bool)
        ensures
            r == self@.contains(Capability::KvGet),
    {
        self.any_granted(Capability::KvGet, false)
    }
}

/// Limits on what one script run may consume.
#[derive(Debug, Clone, Copy, PartialEq, Eq, Structural)]
pub struct ResourceLimits {
    pub max_memory_mb: usize,
    pub max_operations: u64,
    pub max_call_depth: u32,
    pub timeout_seconds: u64,
}

pub fn default_max_memory() -> (r: usize)
    ensures
        r == 64,
{
    64
}

pub fn default_max_operations() -> (r: u64)
    ensures
        r == 1_000_000,
{
    1_000_000
}

pub fn default_max_call_depth() -> (r: u32)
    ensures
        r == 64,
{
    64
}

pub fn default_timeout() -> (r: u64)
    ensures
        r == 30,
{
    30
}

impl Default for ResourceLimits {
    fn default() -> (l: Self)
        ensures
            l == (ResourceLimits {
                max_memory_mb: 64,
                max_operations: 1_000_000,
                max_call_depth: 64,
                timeout_seconds: 30,
            }),
    {
        ResourceLimits {
            max_memory_mb: default_max_memory(),
            max_operations: default_max_operations(),
            max_call_depth: default_max_call_depth(),
            timeout_seconds: default_timeout(),
        }
    }
}

} // verus!

//! The sandbox: which host functions a script gets, the policy checks each of
//! them makes before it acts, and the sandbox's key-value store.
use vstd::prelude::*;
use crate::capabilities::{Capability, GrantSet, ResourceLimits};
use crate::policy::{
    Policy, ToolPolicy, ToolPolicyView, domain_allowed, key_allowed, path_allowed,
};
use crate::strmap::StrMap;
use crate::text::join2;

verus! {

/// A sandbox: its grants, its limits, its key-value store and the policy of its tool.
pub struct Aegis {
    grants: GrantSet,
    limits: ResourceLimits,
    kv_store: StrMap<String>,
    policy: Option<ToolPolicy>,
}

/// What a sandbox holds, with strings seen as character sequences.
pub struct AegisView {
    pub grants: Seq<Capability>,
    pub limits: ResourceLimits,
    pub kv: Map<Seq<char>, Seq<char>>,
    pub policy: Option<ToolPolicyView>,
}

impl View for Aegis {
    type V = AegisView;

    closed spec fn view(&self) -> AegisView {
        AegisView {
            grants: self.grants@,
            limits: self.limits,
            kv: self.kv_store@.map_values(|s: String| s@),
            policy: match self.policy {
                Some(p) => Some(p@),
                None => None,
            },
        }
    }
}

/// Which host functions a script run gets, and its limits: operations, call
/// depth, memory and time. `log`, `result` and `sleep` are always there.
pub struct EngineSetup {
    pub max_operations: u64,
    pub max_call_depth: u32,
    pub max_memory_mb: usize,
    pub timeout_seconds: u64,
    pub http_get: bool,
    pub kv_set: bool,
    pub kv_get: bool,
    pub file_read: bool,
    pub file_write: bool,
    pub file_list: bool,
}

/// The setup of a run in a sandbox whose state is `a`.
pub open spec fn engine_setup_of(a: AegisView) -> EngineSetup {
    EngineSetup {
        max_operations: a.limits.max_operations,
        max_call_depth: a.limits.max_call_depth,
        max_memory_mb: a.limits.max_memory_mb,
        timeout_seconds: a.limits.timeout_seconds,
        http_get: a.grants.contains(Capability::HttpGet) || a.grants.contains(Capability::HttpPost),
        kv_set: a.grants.contains(Capability::KvSet),
        kv_get: a.grants.contains(Capability::KvGet),
        file_read: a.grants.contains(Capability::FileRead),
        file_write: a.grants.contains(Capability::FileWrite),
        file_list: a.grants.contains(Capability::FileList),
    }
}

/// The sandbox's policy lets a request reach `url`.
pub open spec fn domain_permitted(a: AegisView, url: Seq<char>) -> bool {
    match a.policy {
        Some(p) => domain_allowed(p.allowed_domains, url),
        None => true,
    }
}

/// The sandbox's policy lets the store be used with `key`.
pub open spec fn key_permitted(a: AegisView, key: Seq<char>) -> bool {
    match a.policy {
        Some(p) => key_allowed(p.allowed_key_prefixes, key),
        None => true,
    }
}

/// The sandbox's policy lets files at `path` be touched.
pub open spec fn path_permitted(a: AegisView, path: Seq<char>) -> bool {
    match a.policy {
        Some(p) => path_allowed(p.allowed_paths, path),
        None => true,
    }
}

/// A result with its strings seen as character sequences.
pub open spec fn text_result<T>(r: Result<T, String>, ok: spec_fn(T) -> Seq<char>) -> Result<Seq<char>, Seq<char>> {
    match r {
        Ok(v) => Ok(ok(v)),
        Err(e) => Err(e@),
    }
}

/// The state after `kv_set(key, value)`.
pub open spec fn kv_set_state(a: AegisView, key: Seq<char>, value: Seq<char>) -> AegisView {
    if key_permitted(a, key) {
        AegisView { kv: a.kv.insert(key, value), ..a }
    } else {
        a
    }
}

/// What `kv_get(key)` answers.
pub open spec fn kv_get_answer(a: AegisView, key: Seq<char>) -> Result<Seq<char>, Seq<char>> {
    if !key_permitted(a, key) {
        Err("Key prefix not allowed: "@ + key)
    } else if a.kv.contains_key(key) {
        Ok(a.kv[key])
    } else {
        Err("Key not found: "@ + key)
    }
}

/// The sandbox built for a tool: the tool's grants, limits and policy when the
/// policy has that tool, else the grants and limits of `base` with no policy;
/// the store is empty either way.
pub open spec fn with_policy_of(base: AegisView, tools: Map<Seq<char>, ToolPolicy>, name: Seq<char>) -> AegisView {
    if tools.contains_key(name) {
        AegisView {
            grants: tools[name].capabilities@,
            limits: tools[name].resource_limits,
            kv: Map::empty(),
            policy: Some(tools[name]@),
        }
    } else {
        AegisView { grants: base.grants, limits: base.limits, kv: Map::empty(), policy: None }
    }
}

/// The number of bytes in `mb` mebibytes, capped at the largest `usize`.
pub open spec fn memory_bytes(mb: usize) -> int {
    if mb * 1048576 <= usize::MAX {
        mb * 1048576
    } else {
        usize::MAX as int
    }
}

impl EngineSetup {
    /// The memory budget of a run in bytes, which bounds the size of any one
    /// string, array or map the script builds.
    pub fn memory_limit_bytes(&self) -> (r: usize)
        ensures
            r == memory_bytes(self.max_memory_mb),
    {
        if self.max_memory_mb <= usize::MAX / 1048576 {
            self.max_memory_mb * 1048576
        } else {
            usize::MAX
        }
    }

    /// A run that has taken `elapsed_millis` milliseconds is past its time limit.
    pub fn timed_out(&self, elapsed_millis: u128) -> (r: bool)
        ensures
            r == (elapsed_millis > self.timeout_seconds * 1000),
    {
        elapsed_millis > self.timeout_seconds as u128 * 1000
    }
}

/// The error a run reports when its script fails: `Script error: ` and the
/// engine's message.
pub fn script_error_message(message: &str) -> (r: String)
    ensures
        r@ == "Script error: "@ + message@,
{
    join2("Script error: ", message)
}

impl Default for Aegis {
    fn default() -> (a: Self)
        ensures
            a.wf(),
            a@ == (AegisView {
                grants: Seq::empty(),
                limits: ResourceLimits {
                    max_memory_mb: 64,
                    max_operations: 1_000_000,
                    max_call_depth: 64,
                    timeout_seconds: 30,
                },
                kv: Map::empty(),
                policy: None,
            }),
    {
        Self::new()
    }
}

impl Aegis {
    /// The store is well formed.
    pub closed spec fn wf(&self) -> bool {
        self.kv_store.wf()
    }

    /// A sandbox with no grants, default limits, an empty store and no policy.
    pub fn new() -> (a: Self)
        ensures
            a.wf(),
            a@ == (AegisView {
                grants: Seq::empty(),
                limits: ResourceLimits {
                    max_memory_mb: 64,
                    max_operations: 1_000_000,
                    max_call_depth: 64,
                    timeout_seconds: 30,
                },
                kv: Map::empty(),
                policy: None,
            }),
    {
        let a = Aegis {
            grants: GrantSet::default(),
            limits: ResourceLimits::default(),
            kv_store: StrMap::new(),
            policy: None,
        };
        assert(a@.kv =~= Map::empty());
        a
    }

    /// A fresh sandbox for the tool `tool_name` of `policy`.
    pub fn with_policy(&self, policy: &Policy, tool_name: &str) -> (a: Self)
        requires
            policy.wf(),
        ensures
            a.wf(),
            a@ == with_policy_of(self@, policy.tools@, tool_name@),
    {
        match policy.get_tool(tool_name) {
            Some(tool) => {
                let tool_policy = tool.clone();
                let a = Aegis {
                    grants: GrantSet::new(tool.capabilities.clone()),
                    limits: tool.resource_limits,
                    kv_store: StrMap::new(),
                    policy: Some(tool_policy),
                };
                assert(a@.kv =~= Map::empty());
                a
            },
            None => {
                let a = Aegis {
                    grants: self.grants.clone(),
                    limits: self.limits,
                    kv_store: StrMap::new(),
                    policy: None,
                };
                assert(a@.kv =~= Map::empty());
                a
            },
        }
    }

    /// The grants of this sandbox.
    pub fn grants(&self) -> (g: &GrantSet)
        ensures
            g@ == self@.grants,
    {
        &self.grants
    }

    /// The limits of this sandbox.
    pub fn limits(&self) -> (l: ResourceLimits)
        ensures
            l == self@.limits,
    {
        self.limits
    }

    /// The host functions a run gets and its limits.
    pub fn engine_setup(&self) -> (s: EngineSetup)
        ensures
            s == engine_setup_of(self@),
    {
        EngineSetup {
            max_operations: self.limits.max_operations,
            max_call_depth: self.limits.max_call_depth,
            max_memory_mb: self.limits.max_memory_mb,
            timeout_seconds: self.limits.timeout_seconds,
            http_get: self.grants.has_http(),
            kv_set: self.grants.has_kv_set(),
            kv_get: self.grants.has_kv_get(),
            file_read: self.grants.has_file_read(),
            file_write: self.grants.has_file_write(),
            file_list: self.grants.has_file_list(),
        }
    }

    /// The check `http_get` makes before it sends a request to `url`.
    pub fn check_domain(&self, url: &str) -> (r: Result<(), String>)
        ensures
            r is Ok <==> domain_permitted(self@, url@),
            r matches Err(e) ==> e@ == "Domain not allowed: "@ + url@,
    {
        match &self.policy {
            Some(p) => {
                if !p.allows_domain(url) {
                    return Err(join2("Domain not allowed: ", url));
                }
                Ok(())
            },
            None => Ok(()),
        }
    }

    /// The check the store functions make before they use `key`.
    pub fn check_key(&self, key: &str) -> (r: Result<(), String>)
        ensures
            r is Ok <==> key_permitted(self@, key@),
            r matches Err(e) ==> e@ == "Key prefix not allowed: "@ + key@,
    {
        match &self.policy {
            Some(p) => {
                if !p.allows_key(key) {
                    return Err(join2("Key prefix not allowed: ", key));
                }
                Ok(())
            },
            None => Ok(()),
        }
    }

    /// The check the file functions make before they touch `path`.
    pub fn check_path(&self, path: &str) -> (r: Result<(), String>)
        ensures
            r is Ok <==> path_permitted(self@, path@),
            r matches Err(e) ==> e@ == "Path not allowed: "@ + path@,
    {
        match &self.policy {
            Some(p) => {
                if !p.allows_path(path) {
                    return Err(join2("Path not allowed: ", path));
                }
                Ok(())
            },
            None => Ok(()),
        }
    }

    /// The `kv_set` host function: stores `value` under `key` where the policy allows the key.
    pub fn kv_set(&mut self, key: &str, value: &str) -> (r: Result<bool, String>)
        requires
            old(self).wf(),
        ensures
            final(self).wf(),
            final(self)@ == kv_set_state(old(self)@, key@, value@),
            key_permitted(old(self)@, key@) ==> r == Ok::<bool, String>(true),
            !key_permitted(old(self)@, key@) ==> (r matches Err(e) && e@ == "Key prefix not allowed: "@ + key@),
    {
        match self.check_key(key) {
            Err(e) => Err(e),
            Ok(()) => {
                let ghost before = self@;
                self.kv_store.insert(String::from_str(key), String::from_str(value));
                assert(self@.kv =~= before.kv.insert(key@, value@));
                Ok(true)
            },
        }
    }

    /// The `kv_get` host function: the value under `key` where the policy allows the key.
    pub fn kv_get(&self, key: &str) -> (r: Result<String, String>)
        requires
            self.wf(),
        ensures
            text_result(r, |s: String| s@) == kv_get_answer(self@, key@),
    {
        match self.check_key(key) {
            Err(e) => Err(e),
            Ok(()) => match self.kv_store.get(key) {
                Some(v) => Ok(v.clone()),
                None => Err(join2("Key not found: ", key)),
            },
        }
    }
}

/// What a script writes with `kv_set` it reads back with `kv_get`, where the
/// policy allows the key; other keys read as before; a refused write changes nothing.
pub proof fn lemma_kv_read_after_write(a: AegisView, key: Seq<char>, value: Seq<char>, other: Seq<char>)
    ensures
        key_permitted(a, key) ==> kv_get_answer(kv_set_state(a, key, value), key) == Ok::<Seq<char>, Seq<char>>(value),
        other != key ==> kv_get_answer(kv_set_state(a, key, value), other) == kv_get_answer(a, other),
        !key_permitted(a, key) ==> kv_set_state(a, key, value) == a,
        kv_set_state(a, key, value).policy == a.policy,
        kv_set_state(a, key, value).grants == a.grants,
{
}

/// A sandbox built for a tool starts with an empty store: a key read there is
/// refused or not found, whatever earlier runs stored elsewhere.
pub proof fn lemma_fresh_sandbox_has_no_state(base: AegisView, tools: Map<Seq<char>, ToolPolicy>, name: Seq<char>, key: Seq<char>)
    ensures
        with_policy_of(base, tools, name).kv == Map::<Seq<char>, Seq<char>>::empty(),
        kv_get_answer(with_policy_of(base, tools, name), key) is Err,
{
}

/// A sandbox with no grants gets none of the privileged host functions.
pub proof fn lemma_no_grants_no_host_functions(a: AegisView)
    requires
        a.grants.len() == 0,
    ensures
        !engine_setup_of(a).http_get,
        !engine_setup_of(a).kv_set,
        !engine_setup_of(a).kv_get,
        !engine_setup_of(a).file_read,
        !engine_setup_of(a).file_write,
        !engine_setup_of(a).file_list,
{
}

/// A sandbox built for a tool of the policy gets exactly the host functions its
/// capabilities name, and no others, under the tool's resource limits.
pub proof fn lemma_tool_grants_decide_host_functions(base: AegisView, tools: Map<Seq<char>, ToolPolicy>, name: Seq<char>)
    requires
        tools.contains_key(name),
    ensures
        engine_setup_of(with_policy_of(base, tools, name)).kv_set == tools[name].capabilities@.contains(Capability::KvSet),
        engine_setup_of(with_policy_of(base, tools, name)).kv_get == tools[name].capabilities@.contains(Capability::KvGet),
        engine_setup_of(with_policy_of(base, tools, name)).file_read == tools[name].capabilities@.contains(Capability::FileRead),
        engine_setup_of(with_policy_of(base, tools, name)).file_write == tools[name].capabilities@.contains(Capability::FileWrite),
        engine_setup_of(with_policy_of(base, tools, name)).file_list == tools[name].capabilities@.contains(Capability::FileList),
        engine_setup_of(with_policy_of(base, tools, name)).http_get == (tools[name].capabilities@.contains(Capability::HttpGet) || tools[name].capabilities@.contains(Capability::HttpPost)),
        engine_setup_of(with_policy_of(base, tools, name)).max_operations == tools[name].resource_limits.max_operations,
        engine_setup_of(with_policy_of(base, tools, name)).max_call_depth == tools[name].resource_limits.max_call_depth,
        engine_setup_of(with_policy_of(base, tools, name)).max_memory_mb == tools[name].resource_limits.max_memory_mb,
        engine_setup_of(with_policy_of(base, tools, name)).timeout_seconds == tools[name].resource_limits.timeout_seconds,
{
}

} // verus!

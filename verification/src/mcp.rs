//! The JSON-RPC server's decisions: admission (size and rate limits), method
//! dispatch, approval, and the replies it sends.
use vstd::prelude::*;
use crate::execution_state::{
    ExecutionRecord, ExecutionState, ExecutionStateManager, active_ids,
};
use crate::policy::{Policy, ToolPolicy};
use crate::sandbox::{Aegis, AegisView, with_policy_of};
use crate::clock::{ClockReading, MonotonicReading, nanos_since};
use crate::strmap::StrMap;
use crate::text::{join2, join3, str_eq};

verus! {

/// `serde_json::Value`, carried through as a request id; nothing inside it is read.
#[verifier::external_type_specification]
#[verifier::external_body]
pub struct ExJsonValue(serde_json::Value);

/// `std::time::Instant`, the origin of the server's monotonic clock.
#[verifier::external_type_specification]
#[verifier::external_body]
pub struct ExInstant(std::time::Instant);

/// `Instant::now()`: a reading of the monotonic clock.
#[verifier::external_body]
fn instant_now() -> std::time::Instant {
    std::time::Instant::now()
}

/// The largest request body accepted, in bytes.
pub const MAX_REQUEST_SIZE: usize = 1_000_000;

/// Requests one client may make per window.
pub const MAX_REQUESTS_PER_MINUTE: usize = 60;

/// Executions that may be active at once.
pub const MAX_CONCURRENT_EXECUTIONS: usize = 10;

/// Seconds an execution may take.
pub const EXECUTION_TIMEOUT_SECS: u64 = 300;

/// The length of a rate-limit window, in nanoseconds (one minute).
pub const RATE_WINDOW_NANOS: u128 = 60_000_000_000;

/// An error object of a reply.
#[derive(Debug)]
pub struct JsonRpcError {
    pub code: i32,
    pub message: String,
}

/// One execution as `list_executions` reports it.
#[derive(Debug)]
pub struct ExecutionSummary {
    pub id: String,
    pub tool: String,
    pub state: ExecutionState,
    pub created_at: u64,
}

/// The result object of a successful reply.
#[derive(Debug)]
pub enum RpcResult {
    /// `{"value": ...}`: the debug form of what a script returned.
    Value(String),
    /// `{"approved": tool, "message": "Tool approved for execution"}`.
    Approved(String),
    /// `{"executions": [...]}`.
    Executions(Vec<ExecutionSummary>),
}

/// The parameters the server reads from a request: `params.code` and
/// `params.tool`, where they are strings.
#[derive(Debug)]
pub struct RequestParams {
    pub code: Option<String>,
    pub tool: Option<String>,
}

/// A parsed request.
#[derive(Debug)]
pub struct JsonRpcRequest {
    pub jsonrpc: String,
    pub method: String,
    pub params: RequestParams,
    pub id: Option<serde_json::Value>,
}

/// A reply: `result` or `error`, and the request's id.
#[derive(Debug)]
pub struct JsonRpcResponse {
    pub jsonrpc: String,
    pub result: Option<RpcResult>,
    pub error: Option<JsonRpcError>,
    pub id: Option<serde_json::Value>,
}

/// Limits against denial of service.
#[derive(Debug, Clone, Copy, PartialEq, Eq, Structural)]
pub struct DoSConfig {
    pub max_requests_per_minute: usize,
    pub max_concurrent_executions: usize,
    pub timeout_seconds: u64,
}

impl Default for DoSConfig {
    fn default() -> (c: Self)
        ensures
            c == (DoSConfig {
                max_requests_per_minute: 60,
                max_concurrent_executions: 10,
                timeout_seconds: 300,
            }),
    {
        DoSConfig {
            max_requests_per_minute: MAX_REQUESTS_PER_MINUTE,
            max_concurrent_executions: MAX_CONCURRENT_EXECUTIONS,
            timeout_seconds: EXECUTION_TIMEOUT_SECS,
        }
    }
}

/// Requests of one client in its current window, which started at
/// `window_start` nanoseconds after the server's clock origin.
#[derive(Debug, Clone, Copy, PartialEq, Eq, Structural)]
pub struct RateLimitEntry {
    pub count: usize,
    pub window_start: u128,
}

/// A script run the server has decided on: the app runs `code` in `sandbox`
/// and hands the outcome to `McpServer::execution_response`.
pub struct ExecutionJob {
    pub exec_id: String,
    pub sandbox: Aegis,
    pub code: String,
    pub id: Option<serde_json::Value>,
}

/// What the server does with a request: reply at once, or run a script first.
pub enum Dispatch {
    Reply(JsonRpcResponse),
    Run(ExecutionJob),
}

/// The methods a request may name.
pub open spec fn allowed_method(m: Seq<char>) -> bool {
    m == "execute"@ || m == "approve"@ || m == "list_executions"@ || m == "get_execution"@ || m
        == "validate"@
}

/// More than a minute has passed since the window of `e` started.
pub open spec fn window_expired(e: RateLimitEntry, now: u128) -> bool {
    now > e.window_start && now - e.window_start > RATE_WINDOW_NANOS
}

/// `e` with its window restarted at `now` when it has expired.
pub open spec fn refreshed(e: RateLimitEntry, now: u128) -> RateLimitEntry {
    if window_expired(e, now) {
        RateLimitEntry { count: 0, window_start: now }
    } else {
        e
    }
}

/// A request at `now` from a client whose entry is `e` is admitted.
pub open spec fn rate_admits(e: Option<RateLimitEntry>, now: u128, max: usize) -> bool {
    match e {
        None => true,
        Some(e) => refreshed(e, now).count < max,
    }
}

/// The client's entry after a request at `now`.
pub open spec fn rate_entry_after(e: Option<RateLimitEntry>, now: u128, max: usize) -> RateLimitEntry {
    match e {
        None => RateLimitEntry { count: 1, window_start: now },
        Some(e) => if refreshed(e, now).count < max {
            RateLimitEntry { count: (refreshed(e, now).count + 1) as usize, ..refreshed(e, now) }
        } else {
            refreshed(e, now)
        },
    }
}

/// The entry of `client` in `m`, if any.
pub open spec fn entry_of(m: Map<Seq<char>, RateLimitEntry>, client: Seq<char>) -> Option<RateLimitEntry> {
    if m.contains_key(client) {
        Some(m[client])
    } else {
        None
    }
}

/// The tool an `execute` request names, `default` when it names none.
pub open spec fn tool_or_default(p: RequestParams) -> Seq<char> {
    match p.tool {
        Some(t) => t@,
        None => "default"@,
    }
}

/// The code an `execute` request carries, empty when it carries none.
pub open spec fn code_or_empty(p: RequestParams) -> Seq<char> {
    match p.code {
        Some(c) => c@,
        None => Seq::empty(),
    }
}

/// The tool an `approve` request names, empty when it names none.
pub open spec fn tool_or_empty(p: RequestParams) -> Seq<char> {
    match p.tool {
        Some(t) => t@,
        None => Seq::empty(),
    }
}

/// The policy asks for approval before the tool called `tool` runs.
pub open spec fn needs_approval(tools: Map<Seq<char>, ToolPolicy>, tool: Seq<char>) -> bool {
    tools.contains_key(tool) && tools[tool].requires_approval
}

/// `r` is a JSON-RPC 2.0 error reply with `code`, `message` and `id`.
pub open spec fn is_error_reply(r: JsonRpcResponse, code: int, message: Seq<char>, id: Option<serde_json::Value>) -> bool {
    &&& r.jsonrpc@ == "2.0"@
    &&& r.result is None
    &&& r.error matches Some(e) && e.code == code && e.message@ == message
    &&& r.id == id
}

/// `r` is a JSON-RPC 2.0 success reply with `id`.
pub open spec fn is_result_reply(r: JsonRpcResponse, id: Option<serde_json::Value>) -> bool {
    &&& r.jsonrpc@ == "2.0"@
    &&& r.result is Some
    &&& r.error is None
    &&& r.id == id
}

/// `s` summarizes the record `r`.
pub open spec fn summarizes(s: ExecutionSummary, r: ExecutionRecord) -> bool {
    &&& s.id == r.id
    &&& s.tool == r.tool
    &&& s.state == r.state
    &&& s.created_at == r.created_at
}

/// The server's state.
pub struct McpServerView {
    pub aegis: AegisView,
    pub tools: Map<Seq<char>, ToolPolicy>,
    pub executions: Map<Seq<char>, ExecutionRecord>,
    pub rate_limits: Map<Seq<char>, RateLimitEntry>,
    pub dos_config: DoSConfig,
}

/// The JSON-RPC server.
pub struct McpServer {
    aegis: Aegis,
    policy: Policy,
    exec_manager: ExecutionStateManager,
    rate_limits: StrMap<RateLimitEntry>,
    dos_config: DoSConfig,
    clock_origin: std::time::Instant,
}

impl View for McpServer {
    type V = McpServerView;

    closed spec fn view(&self) -> McpServerView {
        McpServerView {
            aegis: self.aegis@,
            tools: self.policy.tools@,
            executions: self.exec_manager@,
            rate_limits: self.rate_limits@,
            dos_config: self.dos_config,
        }
    }
}

fn error_reply(code: i32, message: String, id: Option<serde_json::Value>) -> (r: JsonRpcResponse)
    ensures
        is_error_reply(r, code as int, message@, id),
{
    proof { reveal_strlit("2.0"); }
    JsonRpcResponse {
        jsonrpc: String::from_str("2.0"),
        result: None,
        error: Some(JsonRpcError { code, message }),
        id,
    }
}

fn result_reply(result: RpcResult, id: Option<serde_json::Value>) -> (r: JsonRpcResponse)
    ensures
        is_result_reply(r, id),
        r.result == Some(result),
{
    JsonRpcResponse {
        jsonrpc: String::from_str("2.0"),
        result: Some(result),
        error: None,
        id,
    }
}

impl McpServer {
    /// The parts agree with their own invariants.
    pub closed spec fn wf(&self) -> bool {
        &&& self.policy.wf()
        &&& self.exec_manager.wf()
        &&& self.rate_limits.wf()
    }

    /// A server for `policy`, building sandboxes from `aegis`, with no executions,
    /// no request history and the default limits.
    pub fn new(aegis: Aegis, policy: Policy) -> (s: Self)
        requires
            policy.wf(),
        ensures
            s.wf(),
            s@.aegis == aegis@,
            s@.tools == policy.tools@,
            s@.executions == Map::<Seq<char>, ExecutionRecord>::empty(),
            s@.rate_limits == Map::<Seq<char>, RateLimitEntry>::empty(),
            s@.dos_config == DoSConfig::default_spec(),
    {
        McpServer {
            aegis,
            policy,
            exec_manager: ExecutionStateManager::new(),
            rate_limits: StrMap::new(),
            dos_config: DoSConfig::default(),
            clock_origin: instant_now(),
        }
    }

    /// Accepts only the methods the server serves.
    pub fn validate_method(&self, method: &str) -> (r: Result<(), String>)
        ensures
            r is Ok <==> allowed_method(method@),
            r matches Err(e) ==> e@ == "Unknown method: "@ + method@,
    {
        if str_eq(method, "execute") || str_eq(method, "approve") || str_eq(method, "list_executions")
            || str_eq(method, "get_execution") || str_eq(method, "validate") {
            Ok(())
        } else {
            Err(join2("Unknown method: ", method))
        }
    }

    /// Accepts bodies of at most `MAX_REQUEST_SIZE` bytes.
    pub fn validate_request_size(&self, body: &str) -> (r: Result<(), String>)
        ensures
            r is Ok <==> body.len() <= MAX_REQUEST_SIZE,
            r matches Err(e) ==> e@ == "Request too large"@,
    {
        if body.len() > MAX_REQUEST_SIZE {
            return Err(String::from_str("Request too large"));
        }
        Ok(())
    }

    /// Counts a request of `client_id` made `now` nanoseconds after the server
    /// started; refuses it when the client's current window is full. An expired
    /// window restarts, refused or not.
    pub fn check_rate_limit_at(&mut self, client_id: &str, now: u128) -> (r: Result<(), String>)
        requires
            old(self).wf(),
        ensures
            final(self).wf(),
            r is Ok <==> rate_admits(
                entry_of(old(self)@.rate_limits, client_id@),
                now,
                old(self)@.dos_config.max_requests_per_minute,
            ),
            r matches Err(e) ==> e@ == "Rate limit exceeded"@,
            final(self)@.rate_limits == old(self)@.rate_limits.insert(
                client_id@,
                rate_entry_after(
                    entry_of(old(self)@.rate_limits, client_id@),
                    now,
                    old(self)@.dos_config.max_requests_per_minute,
                ),
            ),
            final(self)@.aegis == old(self)@.aegis,
            final(self)@.tools == old(self)@.tools,
            final(self)@.executions == old(self)@.executions,
            final(self)@.dos_config == old(self)@.dos_config,
    {
        let max = self.dos_config.max_requests_per_minute;
        match self.rate_limits.get(client_id) {
            Some(entry) => {
                let mut e = *entry;
                if now > e.window_start && now - e.window_start > RATE_WINDOW_NANOS {
                    e = RateLimitEntry { count: 0, window_start: now };
                }
                if e.count >= max {
                    self.rate_limits.insert(String::from_str(client_id), e);
                    return Err(String::from_str("Rate limit exceeded"));
                }
                e.count = e.count + 1;
                self.rate_limits.insert(String::from_str(client_id), e);
                Ok(())
            },
            None => {
                self.rate_limits.insert(
                    String::from_str(client_id),
                    RateLimitEntry { count: 1, window_start: now },
                );
                Ok(())
            },
        }
    }

    /// Counts a request of `client_id` now, by the server's monotonic clock.
    pub fn check_rate_limit(&mut self, client_id: &str) -> (r: Result<(), String>)
        requires
            old(self).wf(),
        ensures
            final(self).wf(),
            exists|c: MonotonicReading|
                {
                    let now = #[trigger] c.elapsed_nanos();
                    &&& (r is Ok <==> rate_admits(
                        entry_of(old(self)@.rate_limits, client_id@),
                        now,
                        old(self)@.dos_config.max_requests_per_minute,
                    ))
                    &&& final(self)@.rate_limits == old(self)@.rate_limits.insert(
                        client_id@,
                        rate_entry_after(
                            entry_of(old(self)@.rate_limits, client_id@),
                            now,
                            old(self)@.dos_config.max_requests_per_minute,
                        ),
                    )
                },
            r matches Err(e) ==> e@ == "Rate limit exceeded"@,
            final(self)@.aegis == old(self)@.aegis,
            final(self)@.tools == old(self)@.tools,
            final(self)@.executions == old(self)@.executions,
            final(self)@.dos_config == old(self)@.dos_config,
    {
        let reading = nanos_since(&self.clock_origin);
        self.check_rate_limit_at(client_id, reading.nanos())
    }

    /// Refuses new work while `max_concurrent_executions` executions are active.
    pub fn check_concurrent_limit(&self) -> (r: Result<(), String>)
        requires
            self.wf(),
        ensures
            r is Ok <==> active_ids(self@.executions).len() < self@.dos_config.max_concurrent_executions,
            r matches Err(e) ==> e@ == "Too many concurrent executions"@,
    {
        let active = self.exec_manager.count_active();
        if active >= self.dos_config.max_concurrent_executions {
            return Err(String::from_str("Too many concurrent executions"));
        }
        Ok(())
    }
}

/// The server state is unchanged and `d` is the error reply `code`, `message`, `id`.
pub open spec fn replies_error(
    old: McpServerView,
    new: McpServerView,
    d: Dispatch,
    code: int,
    message: Seq<char>,
    id: Option<serde_json::Value>,
) -> bool {
    &&& new == old
    &&& d matches Dispatch::Reply(r) && is_error_reply(r, code, message, id)
}

/// The error message for a tool that needs approval first.
pub open spec fn approval_message(tool: Seq<char>) -> Seq<char> {
    "Tool '"@ + tool + "' requires approval. Use 'approve' method first."@
}

/// What `dispatch` does with `request` in state `old`, leaving `new`.
pub open spec fn dispatch_spec(
    old: McpServerView,
    new: McpServerView,
    request: Option<JsonRpcRequest>,
    d: Dispatch,
) -> bool {
    match request {
        None => replies_error(old, new, d, -32700, "Invalid JSON"@, None),
        Some(req) => {
            let m = req.method@;
            if !allowed_method(m) {
                replies_error(old, new, d, -32601, "Unknown method: "@ + m, req.id)
            } else if m == "execute"@ {
                let tool = tool_or_default(req.params);
                if needs_approval(old.tools, tool) {
                    replies_error(old, new, d, -32001, approval_message(tool), req.id)
                } else {
                    &&& d matches Dispatch::Run(job) && {
                        &&& job.id == req.id
                        &&& job.code@ == code_or_empty(req.params)
                        &&& job.sandbox.wf()
                        &&& job.sandbox@ == with_policy_of(old.aegis, old.tools, tool)
                        &&& exists|c: ClockReading|
                            c.valid() && job.exec_id@ == crate::execution_state::execution_id(#[trigger] c.millis_since_epoch())
                        &&& new.executions == old.executions.insert(job.exec_id@, new.executions[job.exec_id@])
                        &&& new.executions[job.exec_id@].id == job.exec_id
                        &&& new.executions[job.exec_id@].code@ == code_or_empty(req.params)
                        &&& new.executions[job.exec_id@].tool@ == tool
                        &&& new.executions[job.exec_id@].state == ExecutionState::Running
                        &&& new.executions[job.exec_id@].result == None::<String>
                    }
                    &&& new.aegis == old.aegis
                    &&& new.tools == old.tools
                    &&& new.rate_limits == old.rate_limits
                    &&& new.dos_config == old.dos_config
                }
            } else if m == "approve"@ {
                &&& new == old
                &&& d matches Dispatch::Reply(r) && is_result_reply(r, req.id) && (r.result matches Some(
                    RpcResult::Approved(t),
                ) && t@ == tool_or_empty(req.params))
            } else if m == "list_executions"@ {
                &&& new == old
                &&& d matches Dispatch::Reply(r) && is_result_reply(r, req.id) && (r.result matches Some(
                    RpcResult::Executions(v),
                ) && lists_all(v@, old.executions))
            } else {
                replies_error(old, new, d, -32601, "Method not found: "@ + m, req.id)
            }
        },
    }
}

/// `v` summarizes every record of `m`, each once.
pub open spec fn lists_all(v: Seq<ExecutionSummary>, m: Map<Seq<char>, ExecutionRecord>) -> bool {
    &&& v.len() == m.len()
    &&& forall|i: int|
        0 <= i < v.len() ==> m.contains_key(#[trigger] v[i].id@) && summarizes(v[i], m[v[i].id@])
    &&& forall|i: int, j: int| 0 <= i < j < v.len() ==> v[i].id@ != v[j].id@
}

impl McpServer {
    /// The checks made before a body is parsed: its size, then the rate limit of
    /// the (single) client `default`.
    pub fn admit_request(&mut self, body: &str) -> (r: Result<(), JsonRpcResponse>)
        requires
            old(self).wf(),
        ensures
            final(self).wf(),
            body.len() > MAX_REQUEST_SIZE ==> final(self)@ == old(self)@,
            body.len() > MAX_REQUEST_SIZE ==> (r matches Err(resp) && is_error_reply(
                resp,
                -32600,
                "Request too large"@,
                None,
            )),
            body.len() <= MAX_REQUEST_SIZE ==> exists|c: MonotonicReading|
                {
                    &&& (r is Ok <==> admission_admits(old(self)@, #[trigger] c.elapsed_nanos()))
                    &&& admission_step(old(self)@, final(self)@, c.elapsed_nanos())
                },
            body.len() <= MAX_REQUEST_SIZE ==> (r matches Err(resp) ==> is_error_reply(
                resp,
                -32600,
                "Rate limit exceeded"@,
                None,
            )),
            final(self)@.aegis == old(self)@.aegis,
            final(self)@.tools == old(self)@.tools,
            final(self)@.executions == old(self)@.executions,
            final(self)@.dos_config == old(self)@.dos_config,
    {
        if let Err(e) = self.validate_request_size(body) {
            return Err(error_reply(-32600, e, None));
        }
        let ghost before = self@;
        let checked = self.check_rate_limit("default");
        proof {
            let c = choose|c: MonotonicReading|
                {
                    let now = #[trigger] c.elapsed_nanos();
                    &&& (checked is Ok <==> rate_admits(
                        entry_of(before.rate_limits, "default"@),
                        now,
                        before.dos_config.max_requests_per_minute,
                    ))
                    &&& self@.rate_limits == before.rate_limits.insert(
                        "default"@,
                        rate_entry_after(
                            entry_of(before.rate_limits, "default"@),
                            now,
                            before.dos_config.max_requests_per_minute,
                        ),
                    )
                };
            assert(checked is Ok <==> admission_admits(before, c.elapsed_nanos()));
            assert(admission_step(before, self@, c.elapsed_nanos()));
        }
        if let Err(e) = checked {
            return Err(error_reply(-32600, e, None));
        }
        Ok(())
    }

    /// Decides what to do with a parsed request (`None` when the body was not a
    /// request). An `execute` that needs no approval records a running
    /// execution and hands back the sandbox to run it in.
    pub fn dispatch(&mut self, request: Option<JsonRpcRequest>) -> (d: Dispatch)
        requires
            old(self).wf(),
        ensures
            final(self).wf(),
            dispatch_spec(old(self)@, final(self)@, request, d),
    {
        let req = match request {
            None => {
                return Dispatch::Reply(error_reply(-32700, String::from_str("Invalid JSON"), None));
            },
            Some(req) => req,
        };
        let JsonRpcRequest { jsonrpc: _, method, params, id } = req;
        if let Err(e) = self.validate_method(method.as_str()) {
            return Dispatch::Reply(error_reply(-32601, e, id));
        }
        let RequestParams { code, tool } = params;
        if str_eq(method.as_str(), "execute") {
            let code = match code {
                Some(c) => c,
                None => String::new(),
            };
            let tool = match tool {
                Some(t) => t,
                None => String::from_str("default"),
            };
            let needs = match self.policy.get_tool(tool.as_str()) {
                Some(t) => t.requires_approval,
                None => false,
            };
            if needs {
                let msg = join3("Tool '", tool.as_str(), "' requires approval. Use 'approve' method first.");
                return Dispatch::Reply(error_reply(-32001, msg, id));
            }
            let ghost before = self.exec_manager@;
            let exec_id = self.exec_manager.create(code.as_str(), tool.as_str());
            let started = self.exec_manager.start(exec_id.as_str());
            proof {
                assert(started is Ok);
                assert(self.exec_manager@ =~= before.insert(exec_id@, self.exec_manager@[exec_id@]));
            }
            let sandbox = self.aegis.with_policy(&self.policy, tool.as_str());
            Dispatch::Run(ExecutionJob { exec_id, sandbox, code, id })
        } else if str_eq(method.as_str(), "approve") {
            let tool = match tool {
                Some(t) => t,
                None => String::new(),
            };
            Dispatch::Reply(result_reply(RpcResult::Approved(tool), id))
        } else if str_eq(method.as_str(), "list_executions") {
            let records = self.exec_manager.list();
            let mut out: Vec<ExecutionSummary> = Vec::new();
            let mut i: usize = 0;
            while i < records.len()
                invariant
                    i <= records@.len(),
                    out@.len() == i,
                    forall|j: int| 0 <= j < i ==> summarizes(#[trigger] out@[j], records@[j]),
                decreases records@.len() - i,
            {
                let rec = &records[i];
                out.push(ExecutionSummary {
                    id: rec.id.clone(),
                    tool: rec.tool.clone(),
                    state: rec.state.clone(),
                    created_at: rec.created_at,
                });
                i = i + 1;
            }
            proof {
                assert forall|a: int| 0 <= a < out@.len() implies self@.executions.contains_key(#[trigger] out@[a].id@)
                    && summarizes(out@[a], self@.executions[out@[a].id@]) by {
                    assert(out@[a].id == records@[a].id);
                }
                assert forall|a: int, b: int| 0 <= a < b < out@.len() implies out@[a].id@ != out@[b].id@ by {
                    assert(out@[a].id == records@[a].id);
                    assert(out@[b].id == records@[b].id);
                }
                assert(lists_all(out@, self@.executions));
            }
            Dispatch::Reply(result_reply(RpcResult::Executions(out), id))
        } else {
            Dispatch::Reply(error_reply(-32601, join2("Method not found: ", method.as_str()), id))
        }
    }

    /// The reply to an `execute` whose script returned `outcome`: the debug form
    /// of its value, or its error with code -32000.
    pub fn execution_response(id: Option<serde_json::Value>, outcome: Result<String, String>) -> (r: JsonRpcResponse)
        ensures
            outcome matches Ok(v) ==> is_result_reply(r, id) && (r.result matches Some(RpcResult::Value(w)) && w == v),
            outcome matches Err(e) ==> is_error_reply(r, -32000, e@, id),
    {
        match outcome {
            Ok(v) => result_reply(RpcResult::Value(v), id),
            Err(e) => error_reply(-32000, e, id),
        }
    }
}

/// A client's request count never passes the per-minute maximum (when that is at
/// least one).
pub proof fn lemma_rate_count_bounded(e: Option<RateLimitEntry>, now: u128, max: usize)
    requires
        max >= 1,
        e matches Some(x) ==> x.count <= max,
    ensures
        rate_entry_after(e, now, max).count <= max,
{
}

/// Within a window that is full, every further request is refused and the entry stays as it is.
pub proof fn lemma_full_window_refuses(e: RateLimitEntry, now: u128, max: usize)
    requires
        e.count >= max,
        !window_expired(e, now),
    ensures
        !rate_admits(Some(e), now, max),
        rate_entry_after(Some(e), now, max) == e,
{
}

/// A client's first request is admitted, and so is the first one after its
/// window has expired (when the maximum is at least one).
pub proof fn lemma_fresh_window_admits(e: RateLimitEntry, now: u128, max: usize)
    requires
        max >= 1,
    ensures
        rate_admits(None, now, max),
        rate_entry_after(None, now, max) == (RateLimitEntry { count: 1, window_start: now }),
        window_expired(e, now) ==> rate_admits(Some(e), now, max),
        window_expired(e, now) ==> rate_entry_after(Some(e), now, max) == (RateLimitEntry { count: 1, window_start: now }),
{
}

/// Requests admitted in one window are counted one by one: `k` admitted requests
/// in a window leave its count `k` higher.
pub proof fn lemma_admitted_requests_are_counted(e: RateLimitEntry, now: u128, max: usize)
    requires
        !window_expired(e, now),
        rate_admits(Some(e), now, max),
    ensures
        rate_entry_after(Some(e), now, max).count == e.count + 1,
        rate_entry_after(Some(e), now, max).window_start == e.window_start,
{
}

/// The entry of a client after requests at the times `ts`, one after another,
/// starting from the entry `e`.
pub open spec fn entry_after_requests(e: Option<RateLimitEntry>, ts: Seq<u128>, max: usize) -> Option<RateLimitEntry>
    decreases ts.len(),
{
    if ts.len() == 0 {
        e
    } else {
        Some(rate_entry_after(entry_after_requests(e, ts.drop_last(), max), ts.last(), max))
    }
}

/// A request at `t` opens a new window for a client whose entry is `e`.
pub open spec fn opens_window(e: Option<RateLimitEntry>, t: u128) -> bool {
    match e {
        None => true,
        Some(x) => window_expired(x, t),
    }
}

/// The count a window holds after `k` requests.
pub open spec fn capped(k: int, max: usize) -> usize {
    if k < max {
        k as usize
    } else {
        max
    }
}

/// Of the requests a client makes within one minute of the request that opened
/// its window, the first `max` are admitted and every later one is refused;
/// the window keeps its start and counts up to `max`.
pub proof fn lemma_window_admits_at_most_max(e: Option<RateLimitEntry>, ts: Seq<u128>, max: usize)
    requires
        max >= 1,
        ts.len() >= 1,
        opens_window(e, ts[0]),
        forall|i: int| 0 <= i < ts.len() ==> #[trigger] ts[i] <= ts[0] + RATE_WINDOW_NANOS,
    ensures
        forall|k: int|
            1 <= k <= ts.len() ==> entry_after_requests(e, #[trigger] ts.take(k), max) == Some(
                RateLimitEntry { count: capped(k, max), window_start: ts[0] },
            ),
        forall|k: int|
            0 <= k < ts.len() ==> (rate_admits(entry_after_requests(e, #[trigger] ts.take(k), max), ts[k], max)
                <==> k < max),
    decreases ts.len(),
{
    let n = ts.len() as int;
    assert(ts.take(0) =~= Seq::<u128>::empty());
    if n == 1 {
        assert(ts.take(1).drop_last() =~= ts.take(0));
        assert(ts.take(1).last() == ts[0]);
    } else {
        let init = ts.drop_last();
        assert forall|i: int| 0 <= i < init.len() implies #[trigger] init[i] <= init[0] + RATE_WINDOW_NANOS by {
            assert(init[i] == ts[i]);
        }
        lemma_window_admits_at_most_max(e, init, max);
        assert forall|k: int| 0 <= k < n implies #[trigger] ts.take(k) == init.take(k) by {
            assert(ts.take(k) =~= init.take(k));
        }
        let prev = entry_after_requests(e, ts.take(n - 1), max);
        assert(prev == Some(RateLimitEntry { count: capped(n - 1, max), window_start: ts[0] }));
        assert(!window_expired(prev.unwrap(), ts[n - 1]));
        assert(ts.take(n).drop_last() =~= ts.take(n - 1));
        assert(ts.take(n).last() == ts[n - 1]);
        assert forall|k: int|
            1 <= k <= n implies entry_after_requests(e, #[trigger] ts.take(k), max) == Some(
                RateLimitEntry { count: capped(k, max), window_start: ts[0] },
            ) by {
            if k < n {
                assert(ts.take(k) == init.take(k));
            }
        }
        assert forall|k: int|
            0 <= k < n implies (rate_admits(entry_after_requests(e, #[trigger] ts.take(k), max), ts[k], max)
                <==> k < max) by {
            if k < n - 1 {
                assert(ts.take(k) == init.take(k));
                assert(init[k] == ts[k]);
            }
        }
    }
}

/// Of the requests a client makes while its current window `x` stays open
/// (none more than a minute after the window started), those that bring the
/// count up to `max` are admitted and every later one is refused; the window
/// keeps its start.
pub proof fn lemma_open_window_admits_the_rest(x: RateLimitEntry, ts: Seq<u128>, max: usize)
    requires
        x.count <= max,
        forall|i: int| 0 <= i < ts.len() ==> #[trigger] ts[i] <= x.window_start + RATE_WINDOW_NANOS,
    ensures
        forall|k: int|
            0 <= k <= ts.len() ==> entry_after_requests(Some(x), #[trigger] ts.take(k), max) == Some(
                RateLimitEntry { count: capped(x.count + k, max), window_start: x.window_start },
            ),
        forall|k: int|
            0 <= k < ts.len() ==> (rate_admits(entry_after_requests(Some(x), #[trigger] ts.take(k), max), ts[k], max)
                <==> x.count + k < max),
    decreases ts.len(),
{
    let n = ts.len() as int;
    assert(ts.take(0) =~= Seq::<u128>::empty());
    if n > 0 {
        let init = ts.drop_last();
        assert forall|i: int| 0 <= i < init.len() implies #[trigger] init[i] <= x.window_start + RATE_WINDOW_NANOS by {
            assert(init[i] == ts[i]);
        }
        lemma_open_window_admits_the_rest(x, init, max);
        assert forall|k: int| 0 <= k < n implies #[trigger] ts.take(k) == init.take(k) by {
            assert(ts.take(k) =~= init.take(k));
        }
        let prev = entry_after_requests(Some(x), ts.take(n - 1), max);
        assert(prev == Some(RateLimitEntry { count: capped(x.count + n - 1, max), window_start: x.window_start }));
        assert(!window_expired(prev.unwrap(), ts[n - 1]));
        assert(ts.take(n).drop_last() =~= ts.take(n - 1));
        assert(ts.take(n).last() == ts[n - 1]);
        assert forall|k: int|
            0 <= k <= n implies entry_after_requests(Some(x), #[trigger] ts.take(k), max) == Some(
                RateLimitEntry { count: capped(x.count + k, max), window_start: x.window_start },
            ) by {
            if k < n {
                assert(ts.take(k) == init.take(k));
            }
        }
        assert forall|k: int|
            0 <= k < n implies (rate_admits(entry_after_requests(Some(x), #[trigger] ts.take(k), max), ts[k], max)
                <==> x.count + k < max) by {
            if k < n - 1 {
                assert(ts.take(k) == init.take(k));
                assert(init[k] == ts[k]);
            }
        }
    }
}

/// A request at `now` passes the rate limit of the single client `default`.
pub open spec fn admission_admits(a: McpServerView, now: u128) -> bool {
    rate_admits(entry_of(a.rate_limits, "default"@), now, a.dos_config.max_requests_per_minute)
}

/// `b` is the server `a` after the rate limit has counted a request at `now`.
pub open spec fn admission_step(a: McpServerView, b: McpServerView, now: u128) -> bool {
    &&& b.dos_config == a.dos_config
    &&& b.rate_limits == a.rate_limits.insert(
        "default"@,
        rate_entry_after(entry_of(a.rate_limits, "default"@), now, a.dos_config.max_requests_per_minute),
    )
}

proof fn lemma_admissions_fold(states: Seq<McpServerView>, ts: Seq<u128>, k: int)
    requires
        states.len() == ts.len() + 1,
        0 <= k <= ts.len(),
        forall|i: int| 0 <= i < ts.len() ==> admission_step(#[trigger] states[i], states[i + 1], ts[i]),
    ensures
        states[k].dos_config == states[0].dos_config,
        entry_of(states[k].rate_limits, "default"@) == entry_after_requests(
            entry_of(states[0].rate_limits, "default"@),
            ts.take(k),
            states[0].dos_config.max_requests_per_minute,
        ),
    decreases k,
{
    if k == 0 {
        assert(ts.take(0) =~= Seq::<u128>::empty());
    } else {
        lemma_admissions_fold(states, ts, k - 1);
        assert(admission_step(states[k - 1], states[k], ts[k - 1]));
        assert(ts.take(k).drop_last() =~= ts.take(k - 1));
        assert(ts.take(k).last() == ts[k - 1]);
    }
}

/// Over successive admissions `states[0] -> states[1] -> ...` at the times `ts`,
/// the first of which opens the window of `default` and all within one minute
/// of it, the first `max_requests_per_minute` requests are admitted and every
/// later one is refused.
pub proof fn lemma_server_window_refuses_after_max(states: Seq<McpServerView>, ts: Seq<u128>)
    requires
        states.len() == ts.len() + 1,
        ts.len() >= 1,
        forall|i: int| 0 <= i < ts.len() ==> admission_step(#[trigger] states[i], states[i + 1], ts[i]),
        states[0].dos_config.max_requests_per_minute >= 1,
        opens_window(entry_of(states[0].rate_limits, "default"@), ts[0]),
        forall|i: int| 0 <= i < ts.len() ==> #[trigger] ts[i] <= ts[0] + RATE_WINDOW_NANOS,
    ensures
        forall|k: int|
            0 <= k < ts.len() ==> (admission_admits(#[trigger] states[k], ts[k]) <==> k
                < states[0].dos_config.max_requests_per_minute),
{
    let max = states[0].dos_config.max_requests_per_minute;
    let e = entry_of(states[0].rate_limits, "default"@);
    lemma_window_admits_at_most_max(e, ts, max);
    assert forall|k: int| 0 <= k < ts.len() implies (admission_admits(#[trigger] states[k], ts[k]) <==> k < max) by {
        lemma_admissions_fold(states, ts, k);
        assert(rate_admits(entry_after_requests(e, ts.take(k), max), ts[k], max) <==> k < max);
    }
}

/// Over successive admissions `states[0] -> states[1] -> ...` at the times `ts`,
/// while the window of `default` that is open in `states[0]` stays open (no
/// time more than a minute after it started), requests are admitted until its
/// count reaches `max_requests_per_minute`, and every later one is refused.
pub proof fn lemma_server_open_window_refuses_when_full(states: Seq<McpServerView>, ts: Seq<u128>)
    requires
        states.len() == ts.len() + 1,
        forall|i: int| 0 <= i < ts.len() ==> admission_step(#[trigger] states[i], states[i + 1], ts[i]),
        states[0].rate_limits.contains_key("default"@),
        states[0].rate_limits["default"@].count <= states[0].dos_config.max_requests_per_minute,
        forall|i: int|
            0 <= i < ts.len() ==> #[trigger] ts[i] <= states[0].rate_limits["default"@].window_start
                + RATE_WINDOW_NANOS,
    ensures
        forall|k: int|
            0 <= k < ts.len() ==> (admission_admits(#[trigger] states[k], ts[k]) <==> states[0].rate_limits["default"@].count + k
                < states[0].dos_config.max_requests_per_minute),
{
    let max = states[0].dos_config.max_requests_per_minute;
    let x = states[0].rate_limits["default"@];
    lemma_open_window_admits_the_rest(x, ts, max);
    assert forall|k: int| 0 <= k < ts.len() implies (admission_admits(#[trigger] states[k], ts[k]) <==> x.count + k < max) by {
        lemma_admissions_fold(states, ts, k);
        assert(rate_admits(entry_after_requests(Some(x), ts.take(k), max), ts[k], max) <==> x.count + k < max);
    }
}

impl DoSConfig {
    /// The default limits.
    pub open spec fn default_spec() -> DoSConfig {
        DoSConfig { max_requests_per_minute: 60, max_concurrent_executions: 10, timeout_seconds: 300 }
    }
}

} // verus!

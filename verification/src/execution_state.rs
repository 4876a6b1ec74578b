//! The life cycle of script executions: records keyed by execution id, and the
//! transitions between their states.
use vstd::prelude::*;
use crate::clock::{ClockReading, unix_time};
use crate::strmap::StrMap;
use crate::text::{decimal, decimal_string, join2, lemma_decimal_injective};

verus! {

/// Where an execution stands.
#[derive(Debug, PartialEq, Eq)]
pub enum ExecutionState {
    Pending,
    Running,
    Paused,
    Completed,
    Failed(String),
}

impl Clone for ExecutionState {
    fn clone(&self) -> (r: Self)
        ensures
            r == *self,
    {
        match self {
            ExecutionState::Pending => ExecutionState::Pending,
            ExecutionState::Running => ExecutionState::Running,
            ExecutionState::Paused => ExecutionState::Paused,
            ExecutionState::Completed => ExecutionState::Completed,
            ExecutionState::Failed(e) => ExecutionState::Failed(e.clone()),
        }
    }
}

/// One execution and its bookkeeping. Times are seconds since the Unix epoch.
#[derive(Debug)]
pub struct ExecutionRecord {
    pub id: String,
    pub code: String,
    pub tool: String,
    pub state: ExecutionState,
    pub result: Option<String>,
    pub created_at: u64,
    pub updated_at: u64,
}

impl Clone for ExecutionRecord {
    fn clone(&self) -> (r: Self)
        ensures
            r == *self,
    {
        ExecutionRecord {
            id: self.id.clone(),
            code: self.code.clone(),
            tool: self.tool.clone(),
            state: self.state.clone(),
            result: match &self.result {
                Some(s) => Some(s.clone()),
                None => None,
            },
            created_at: self.created_at,
            updated_at: self.updated_at,
        }
    }
}

/// What `format!("{:?}", s)` gives for a string: the string in double quotes,
/// with quotes, backslashes and unprintable characters escaped.
pub uninterp spec fn debug_quoted(s: Seq<char>) -> Seq<char>;

/// Debug-formats a string (`format!("{:?}", s)`).
#[verifier::external_body]
fn debug_str(s: &str) -> (r: String)
    ensures
        r@ == debug_quoted(s@),
{
    format!("{:?}", s)
}

/// The debug form of a state, as the derived `Debug` writes it.
pub open spec fn state_text(s: ExecutionState) -> Seq<char> {
    match s {
        ExecutionState::Pending => "Pending"@,
        ExecutionState::Running => "Running"@,
        ExecutionState::Paused => "Paused"@,
        ExecutionState::Completed => "Completed"@,
        ExecutionState::Failed(e) => "Failed("@ + debug_quoted(e@) + ")"@,
    }
}

/// The debug form of a state.
pub fn state_debug(s: &ExecutionState) -> (r: String)
    ensures
        r@ == state_text(*s),
{
    match s {
        ExecutionState::Pending => String::from_str("Pending"),
        ExecutionState::Running => String::from_str("Running"),
        ExecutionState::Paused => String::from_str("Paused"),
        ExecutionState::Completed => String::from_str("Completed"),
        ExecutionState::Failed(e) => {
            let q = debug_str(e.as_str());
            String::from_str("Failed(").concat(q.as_str()).concat(")")
        },
    }
}

/// Whole milliseconds of a clock reading (seconds and nanoseconds since the
/// epoch, or none before it): the seconds
/// times 1000 plus the milliseconds within the second, 0 before the epoch.
pub open spec fn reading_millis(t: Option<(u64, u32)>) -> nat {
    match t {
        Some((secs, nanos)) => (secs * 1000 + nanos / 1_000_000) as nat,
        None => 0,
    }
}

/// The clock in milliseconds since the epoch (0 before the epoch).
fn now_millis() -> (r: u128)
    ensures
        exists|c: ClockReading| c.valid() && r == #[trigger] c.millis_since_epoch(),
{
    let c = unix_time();
    c.millis()
}

/// The clock in seconds since the epoch (0 before the epoch).
fn now_secs() -> (r: u64)
    ensures
        exists|c: ClockReading| c.valid() && r == #[trigger] c.secs_since_epoch(),
{
    let c = unix_time();
    c.secs()
}

/// The id given to an execution created at `millis` milliseconds after the epoch.
pub open spec fn execution_id(millis: nat) -> Seq<char> {
    "exec_"@ + decimal(millis)
}

/// The error for an id that has no record.
pub open spec fn not_found_message(id: Seq<char>) -> Seq<char> {
    "Execution not found: "@ + id
}

/// The state after `pause`, where pausing is allowed.
pub open spec fn paused_from(s: ExecutionState) -> Option<ExecutionState> {
    if s == ExecutionState::Running {
        Some(ExecutionState::Paused)
    } else {
        None
    }
}

/// The state after `resume`, where resuming is allowed.
pub open spec fn resumed_from(s: ExecutionState) -> Option<ExecutionState> {
    if s == ExecutionState::Paused {
        Some(ExecutionState::Running)
    } else {
        None
    }
}

/// An execution still occupies a slot: it has neither completed nor failed.
pub open spec fn is_active(s: ExecutionState) -> bool {
    match s {
        ExecutionState::Completed => false,
        ExecutionState::Failed(_) => false,
        _ => true,
    }
}

/// `r` is `old` with state `state`, result `result`, and only its update time
/// otherwise changed.
pub open spec fn updated(
    old: ExecutionRecord,
    r: ExecutionRecord,
    state: ExecutionState,
    result: Option<String>,
) -> bool {
    &&& r.id == old.id
    &&& r.code == old.code
    &&& r.tool == old.tool
    &&& r.state == state
    &&& r.result == result
    &&& r.created_at == old.created_at
}

/// Counts the keys of `ks` whose record in `m` is active.
pub open spec fn count_active_in(ks: Seq<Seq<char>>, m: Map<Seq<char>, ExecutionRecord>) -> nat
    decreases ks.len(),
{
    if ks.len() == 0 {
        0
    } else {
        count_active_in(ks.drop_last(), m) + (if is_active(m[ks.last()].state) {
            1nat
        } else {
            0nat
        })
    }
}

/// The ids whose record in `m` is active.
pub open spec fn active_ids(m: Map<Seq<char>, ExecutionRecord>) -> Set<Seq<char>> {
    m.dom().filter(|k: Seq<char>| is_active(m[k].state))
}

proof fn lemma_count_active_is_set_size(ks: Seq<Seq<char>>, m: Map<Seq<char>, ExecutionRecord>)
    requires
        ks.no_duplicates(),
    ensures
        count_active_in(ks, m) == ks.to_set().filter(|k: Seq<char>| is_active(m[k].state)).len(),
        ks.to_set().filter(|k: Seq<char>| is_active(m[k].state)).finite(),
    decreases ks.len(),
{
    let p = |k: Seq<char>| is_active(m[k].state);
    if ks.len() == 0 {
        assert(ks.to_set().filter(p) =~= Set::empty());
    } else {
        let init = ks.drop_last();
        let x = ks.last();
        assert(init.no_duplicates());
        lemma_count_active_is_set_size(init, m);
        assert(ks =~= init.push(x));
        assert(!init.contains(x));
        assert(ks.to_set() =~= init.to_set().insert(x));
        if p(x) {
            assert(ks.to_set().filter(p) =~= init.to_set().filter(p).insert(x));
        } else {
            assert(ks.to_set().filter(p) =~= init.to_set().filter(p));
        }
    }
}

/// All executions, by id.
pub struct ExecutionStateManager {
    executions: StrMap<ExecutionRecord>,
}

impl View for ExecutionStateManager {
    type V = Map<Seq<char>, ExecutionRecord>;

    closed spec fn view(&self) -> Map<Seq<char>, ExecutionRecord> {
        self.executions@
    }
}

impl Default for ExecutionStateManager {
    fn default() -> (m: Self)
        ensures
            m.wf(),
            m@ == Map::<Seq<char>, ExecutionRecord>::empty(),
    {
        ExecutionStateManager { executions: StrMap::new() }
    }
}

impl ExecutionStateManager {
    /// Every record is filed under its own id.
    pub closed spec fn wf(&self) -> bool {
        &&& self.executions.wf()
        &&& forall|k: Seq<char>| #[trigger]
            self.executions@.contains_key(k) ==> self.executions@[k].id@ == k
    }

    /// No executions yet.
    pub fn new() -> (m: Self)
        ensures
            m.wf(),
            m@ == Map::<Seq<char>, ExecutionRecord>::empty(),
    {
        Self::default()
    }

    /// Records a new pending execution of `code` with `tool` and returns its id,
    /// `exec_` and the clock's milliseconds since the epoch. A record created in
    /// the same millisecond as an earlier one replaces it.
    pub fn create(&mut self, code: &str, tool: &str) -> (id: String)
        requires
            old(self).wf(),
        ensures
            final(self).wf(),
            exists|c: ClockReading| c.valid() && id@ == execution_id(#[trigger] c.millis_since_epoch()),
            exists|c: ClockReading|
                c.valid() && final(self)@[id@].created_at == #[trigger] c.secs_since_epoch(),
            final(self)@ == old(self)@.insert(id@, final(self)@[id@]),
            final(self)@[id@].id == id,
            final(self)@[id@].code@ == code@,
            final(self)@[id@].tool@ == tool@,
            final(self)@[id@].state == ExecutionState::Pending,
            final(self)@[id@].result == None::<String>,
            final(self)@[id@].created_at == final(self)@[id@].updated_at,
    {
        let millis: u128 = now_millis();
        let secs = now_secs();
        self.create_at(code, tool, millis, secs)
    }

    /// Records a new pending execution of `code` with `tool`, created `millis`
    /// milliseconds (and `secs` seconds) after the epoch, under the id `exec_`
    /// and `millis`; it replaces a record with the same id.
    pub fn create_at(&mut self, code: &str, tool: &str, millis: u128, secs: u64) -> (id: String)
        requires
            old(self).wf(),
        ensures
            final(self).wf(),
            id@ == execution_id(millis as nat),
            final(self)@ == old(self)@.insert(id@, final(self)@[id@]),
            final(self)@[id@].id == id,
            final(self)@[id@].code@ == code@,
            final(self)@[id@].tool@ == tool@,
            final(self)@[id@].state == ExecutionState::Pending,
            final(self)@[id@].result == None::<String>,
            final(self)@[id@].created_at == secs,
            final(self)@[id@].updated_at == secs,
    {
        let id = join2("exec_", decimal_string(millis).as_str());
        let record = ExecutionRecord {
            id: id.clone(),
            code: String::from_str(code),
            tool: String::from_str(tool),
            state: ExecutionState::Pending,
            result: None,
            created_at: secs,
            updated_at: secs,
        };
        self.executions.insert(id.clone(), record);
        id
    }

    /// Moves the execution `id` to `new_state` and `new_result`, stamping the
    /// update time; the error names the id when it has no record.
    fn transition(&mut self, id: &str, new_state: ExecutionState, new_result: Option<String>, keep_result: bool) -> (r: Result<(), String>)
        requires
            old(self).wf(),
        ensures
            final(self).wf(),
            match r {
                Ok(()) => {
                    &&& old(self)@.contains_key(id@)
                    &&& final(self)@ == old(self)@.insert(id@, final(self)@[id@])
                    &&& updated(
                        old(self)@[id@],
                        final(self)@[id@],
                        new_state,
                        if keep_result { old(self)@[id@].result } else { new_result },
                    )
                },
                Err(e) => {
                    &&& !old(self)@.contains_key(id@)
                    &&& e@ == not_found_message(id@)
                    &&& final(self)@ == old(self)@
                },
            },
    {
        match self.executions.get(id) {
            Some(rec) => {
                let mut next = rec.clone();
                next.state = new_state;
                if !keep_result {
                    next.result = new_result;
                }
                next.updated_at = now_secs();
                let key = next.id.clone();
                self.executions.insert(key, next);
                Ok(())
            },
            None => Err(join2("Execution not found: ", id)),
        }
    }

    /// Marks the execution `id` running, whatever its state.
    pub fn start(&mut self, id: &str) -> (r: Result<(), String>)
        requires
            old(self).wf(),
        ensures
            final(self).wf(),
            r is Ok <==> old(self)@.contains_key(id@),
            r is Ok ==> final(self)@ == old(self)@.insert(id@, final(self)@[id@]) && updated(
                old(self)@[id@],
                final(self)@[id@],
                ExecutionState::Running,
                old(self)@[id@].result,
            ),
            r matches Err(e) ==> e@ == not_found_message(id@) && final(self)@ == old(self)@,
    {
        self.transition(id, ExecutionState::Running, None, true)
    }

    /// Pauses the execution `id`, which must be running.
    pub fn pause(&mut self, id: &str) -> (r: Result<(), String>)
        requires
            old(self).wf(),
        ensures
            final(self).wf(),
            r is Ok <==> (old(self)@.contains_key(id@) && paused_from(old(self)@[id@].state) is Some),
            r is Ok ==> final(self)@ == old(self)@.insert(id@, final(self)@[id@]) && updated(
                old(self)@[id@],
                final(self)@[id@],
                ExecutionState::Paused,
                old(self)@[id@].result,
            ),
            r matches Err(e) ==> final(self)@ == old(self)@ && e@ == (if old(self)@.contains_key(id@) {
                "Can only pause Running executions, current: "@ + state_text(old(self)@[id@].state)
            } else {
                not_found_message(id@)
            }),
    {
        match self.executions.get(id) {
            Some(rec) => {
                match rec.state {
                    ExecutionState::Running => {},
                    _ => {
                        let current = state_debug(&rec.state);
                        return Err(join2("Can only pause Running executions, current: ", current.as_str()));
                    },
                }
            },
            None => {},
        }
        self.transition(id, ExecutionState::Paused, None, true)
    }

    /// Resumes the execution `id`, which must be paused.
    pub fn resume(&mut self, id: &str) -> (r: Result<(), String>)
        requires
            old(self).wf(),
        ensures
            final(self).wf(),
            r is Ok <==> (old(self)@.contains_key(id@) && resumed_from(old(self)@[id@].state) is Some),
            r is Ok ==> final(self)@ == old(self)@.insert(id@, final(self)@[id@]) && updated(
                old(self)@[id@],
                final(self)@[id@],
                ExecutionState::Running,
                old(self)@[id@].result,
            ),
            r matches Err(e) ==> final(self)@ == old(self)@ && e@ == (if old(self)@.contains_key(id@) {
                "Can only resume Paused executions, current: "@ + state_text(old(self)@[id@].state)
            } else {
                not_found_message(id@)
            }),
    {
        match self.executions.get(id) {
            Some(rec) => {
                match rec.state {
                    ExecutionState::Paused => {},
                    _ => {
                        let current = state_debug(&rec.state);
                        return Err(join2("Can only resume Paused executions, current: ", current.as_str()));
                    },
                }
            },
            None => {},
        }
        self.transition(id, ExecutionState::Running, None, true)
    }

    /// Marks the execution `id` completed with `result`, whatever its state.
    pub fn complete(&mut self, id: &str, result: &str) -> (r: Result<(), String>)
        requires
            old(self).wf(),
        ensures
            final(self).wf(),
            r is Ok <==> old(self)@.contains_key(id@),
            r is Ok ==> final(self)@ == old(self)@.insert(id@, final(self)@[id@]),
            r is Ok ==> (final(self)@[id@].result matches Some(s) && s@ == result@),
            r is Ok ==> updated(
                old(self)@[id@],
                final(self)@[id@],
                ExecutionState::Completed,
                final(self)@[id@].result,
            ),
            r matches Err(e) ==> e@ == not_found_message(id@) && final(self)@ == old(self)@,
    {
        let res = String::from_str(result);
        let ghost res_v = res;
        let r = self.transition(id, ExecutionState::Completed, Some(res), false);
        proof {
            if r is Ok {
                assert(final(self)@[id@].result == Some(res_v));
            }
        }
        r
    }

    /// Marks the execution `id` failed with `error`, whatever its state.
    pub fn fail(&mut self, id: &str, error: &str) -> (r: Result<(), String>)
        requires
            old(self).wf(),
        ensures
            final(self).wf(),
            r is Ok <==> old(self)@.contains_key(id@),
            r is Ok ==> final(self)@ == old(self)@.insert(id@, final(self)@[id@]),
            r is Ok ==> (final(self)@[id@].state matches ExecutionState::Failed(s) && s@ == error@),
            r is Ok ==> updated(
                old(self)@[id@],
                final(self)@[id@],
                final(self)@[id@].state,
                old(self)@[id@].result,
            ),
            r matches Err(e) ==> e@ == not_found_message(id@) && final(self)@ == old(self)@,
    {
        let e = String::from_str(error);
        let ghost e_v = e;
        let r = self.transition(id, ExecutionState::Failed(e), None, true);
        proof {
            if r is Ok {
                assert(final(self)@[id@].state == ExecutionState::Failed(e_v));
            }
        }
        r
    }

    /// A copy of the record of `id`, if there is one.
    pub fn get(&self, id: &str) -> (r: Option<ExecutionRecord>)
        requires
            self.wf(),
        ensures
            r == (if self@.contains_key(id@) {
                Some(self@[id@])
            } else {
                None::<ExecutionRecord>
            }),
    {
        match self.executions.get(id) {
            Some(rec) => Some(rec.clone()),
            None => None,
        }
    }

    /// Copies of all records, each once.
    pub fn list(&self) -> (r: Vec<ExecutionRecord>)
        requires
            self.wf(),
        ensures
            r@.len() == self@.len(),
            forall|i: int|
                0 <= i < r@.len() ==> self@.contains_key(#[trigger] r@[i].id@) && self@[r@[i].id@]
                    == r@[i],
            forall|i: int, j: int| 0 <= i < j < r@.len() ==> r@[i].id@ != r@[j].id@,
    {
        proof { self.executions.lemma_keys(); }
        let ghost ks = self.executions.keys();
        let n = self.executions.len();
        let mut out: Vec<ExecutionRecord> = Vec::new();
        let mut i: usize = 0;
        while i < n
            invariant
                self.wf(),
                ks == self.executions.keys(),
                ks.no_duplicates(),
                forall|k: Seq<char>| self@.contains_key(k) <==> ks.contains(k),
                n == ks.len(),
                i <= n,
                out@.len() == i,
                forall|j: int| 0 <= j < i ==> #[trigger] out@[j] == self@[ks[j]] && out@[j].id@ == ks[j],
                forall|j: int| 0 <= j < i ==> self@.contains_key(ks[j]),
            decreases n - i,
        {
            let rec = self.executions.value_at(i).clone();
            proof {
                assert(ks.contains(ks[i as int]));
                assert(self@.contains_key(ks[i as int]));
            }
            out.push(rec);
            i = i + 1;
        }
        out
    }

    /// The number of executions that have neither completed nor failed.
    pub fn count_active(&self) -> (n: usize)
        requires
            self.wf(),
        ensures
            n == active_ids(self@).len(),
    {
        proof { self.executions.lemma_keys(); }
        let ghost ks = self.executions.keys();
        let len = self.executions.len();
        let mut count: usize = 0;
        let mut i: usize = 0;
        while i < len
            invariant
                self.wf(),
                ks == self.executions.keys(),
                len == ks.len(),
                i <= len,
                count == count_active_in(ks.subrange(0, i as int), self@),
                count <= i,
            decreases len - i,
        {
            let rec = self.executions.value_at(i);
            assert(ks.subrange(0, i + 1).drop_last() =~= ks.subrange(0, i as int));
            match rec.state {
                ExecutionState::Completed => {},
                ExecutionState::Failed(_) => {},
                _ => {
                    count = count + 1;
                },
            }
            i = i + 1;
        }
        proof {
            assert(ks.subrange(0, len as int) =~= ks);
            lemma_count_active_is_set_size(ks, self@);
            assert(ks.to_set() =~= self@.dom());
            assert(active_ids(self@) =~= ks.to_set().filter(|k: Seq<char>| is_active(self@[k].state)));
        }
        count
    }
}

/// Executions created at different milliseconds get different ids, so the
/// second of two `create_at` calls keeps the record of the first: both are
/// found under their own ids afterwards.
pub proof fn law_creations_at_different_times_are_kept_apart(
    m0: Map<Seq<char>, ExecutionRecord>,
    m1: Map<Seq<char>, ExecutionRecord>,
    m2: Map<Seq<char>, ExecutionRecord>,
    a: nat,
    b: nat,
)
    requires
        a != b,
        m1 == m0.insert(execution_id(a), m1[execution_id(a)]),
        m2 == m1.insert(execution_id(b), m2[execution_id(b)]),
    ensures
        execution_id(a) != execution_id(b),
        m2.contains_key(execution_id(a)),
        m2.contains_key(execution_id(b)),
        m2[execution_id(a)] == m1[execution_id(a)],
{
    reveal_strlit("exec_");
    if execution_id(a) == execution_id(b) {
        assert(execution_id(a).skip(5) =~= decimal(a));
        assert(execution_id(b).skip(5) =~= decimal(b));
        lemma_decimal_injective(a, b);
    }
}

/// Pausing a running execution and resuming it brings it back to running, and
/// resuming a paused one and pausing it brings it back to paused.
pub proof fn lemma_pause_resume_round_trip(s: ExecutionState)
    ensures
        paused_from(s) matches Some(p) ==> resumed_from(p) == Some(s),
        resumed_from(s) matches Some(q) ==> paused_from(q) == Some(s),
{
}

/// A record that is neither running nor paused can be neither paused nor resumed.
pub proof fn lemma_pause_resume_need_live_states(s: ExecutionState)
    ensures
        s != ExecutionState::Running ==> paused_from(s) is None,
        s != ExecutionState::Paused ==> resumed_from(s) is None,
{
}

/// A newly created execution is found by its id, pending and active; every
/// other execution is as it was.
pub proof fn lemma_created_record_is_found(
    before: Map<Seq<char>, ExecutionRecord>,
    after: Map<Seq<char>, ExecutionRecord>,
    id: Seq<char>,
    other: Seq<char>,
)
    requires
        after == before.insert(id, after[id]),
        after[id].state == ExecutionState::Pending,
        other != id,
    ensures
        after.contains_key(id),
        is_active(after[id].state),
        after.contains_key(other) == before.contains_key(other),
        before.contains_key(other) ==> after[other] == before[other],
{
}

} // verus!

//! The kill governor: per-process cooldown and retry budget, the order of graceful and
//! forceful termination, and the block on restarts after a kill.
//!
//! The governor decides and keeps the books; the caller terminates processes and
//! reports what came of it.

use std::collections::HashMap;
use vstd::prelude::*;
use vstd::std_specs::hash::spec_keys_iter;
use vstd::std_specs::iter::IteratorSpec;
use vstd::string::*;

use crate::config::KillPolicy;
use crate::text::same_text;

verus! {

broadcast use vstd::std_specs::hash::group_hash_axioms;

/// How long a kill record is kept after its last attempt, in milliseconds.
pub const STATE_TTL_MS: u64 = 300_000;

/// How long after a kill a process started from the same executable is killed on sight,
/// in milliseconds.
pub const RESTART_BLOCK_MS: u64 = 5_000;

/// Why a kill was not made, or failed.
#[derive(Debug, PartialEq, Eq)]
pub enum KillError {
    /// The last attempt on this process is less than the cooldown ago.
    InCooldown,
    /// The retry budget of this process is used up.
    MaxRetriesReached,
    InvalidHandle,
    SystemError(String),
    /// The platform has no such way to terminate a process.
    NotImplemented,
    AccessDenied,
    /// The process is gone.
    NotFound,
    /// The target is the agent itself.
    SelfProtected,
}

impl Clone for KillError {
    fn clone(&self) -> (r: Self)
        ensures
            r == *self,
    {
        match self {
            KillError::InCooldown => KillError::InCooldown,
            KillError::MaxRetriesReached => KillError::MaxRetriesReached,
            KillError::InvalidHandle => KillError::InvalidHandle,
            KillError::SystemError(detail) => KillError::SystemError(detail.clone()),
            KillError::NotImplemented => KillError::NotImplemented,
            KillError::AccessDenied => KillError::AccessDenied,
            KillError::NotFound => KillError::NotFound,
            KillError::SelfProtected => KillError::SelfProtected,
        }
    }
}

impl KillError {
    /// The message of the error.
    pub open spec fn message_text(self) -> Seq<char> {
        match self {
            KillError::InCooldown => "Process is in cooldown period"@,
            KillError::MaxRetriesReached => "Maximum retry attempts reached"@,
            KillError::InvalidHandle => "Invalid process handle"@,
            KillError::SystemError(detail) => "System error: "@ + detail@,
            KillError::NotImplemented => "Feature not implemented"@,
            KillError::AccessDenied => "Access denied (requires admin privileges)"@,
            KillError::NotFound => "Process not found"@,
            KillError::SelfProtected => "Refusing to terminate the agent itself"@,
        }
    }

    /// The message of the error.
    pub fn message(&self) -> (m: String)
        ensures
            m@ == self.message_text(),
    {
        match self {
            KillError::InCooldown => String::from_str("Process is in cooldown period"),
            KillError::MaxRetriesReached => String::from_str("Maximum retry attempts reached"),
            KillError::InvalidHandle => String::from_str("Invalid process handle"),
            KillError::SystemError(detail) => {
                let mut m = String::from_str("System error: ");
                m.append(detail.as_str());
                m
            },
            KillError::NotImplemented => String::from_str("Feature not implemented"),
            KillError::AccessDenied => String::from_str("Access denied (requires admin privileges)"),
            KillError::NotFound => String::from_str("Process not found"),
            KillError::SelfProtected => String::from_str("Refusing to terminate the agent itself"),
        }
    }
}

/// The two ways to terminate a process.
#[derive(Debug, Clone, Copy, PartialEq, Eq, Structural)]
pub enum TerminateMode {
    /// Ask the process to close.
    Graceful,
    /// Kill it outright.
    Forceful,
}

/// What follows a graceful termination.
#[derive(Debug, Clone, Copy, PartialEq, Eq, Structural)]
pub enum NextStep {
    /// The process was asked to close: watch for its exit until `until`.
    AwaitExit { until: u64 },
    /// Terminate forcefully now.
    ForceKill,
}

/// What the governor keeps of the attempts on one process.
#[derive(Debug, Clone, Copy, PartialEq, Eq, Structural)]
pub struct KillState {
    /// When the last attempt was admitted or its outcome recorded.
    pub last_attempt_at: u64,
    /// How many attempts failed.
    pub attempts: u32,
    /// Whether the record has reached its end: the process was killed, or the retry
    /// budget is used up.
    pub terminal: bool,
}

/// A block on restarts of one executable.
pub struct RestartBlock {
    pub path: String,
    pub until: u64,
}

/// The failed attempts on record for a process; none where there is no record.
pub open spec fn attempts_of(states: Map<u32, KillState>, pid: u32) -> u32 {
    if states.contains_key(pid) {
        states[pid].attempts
    } else {
        0
    }
}

/// Why a kill requested at `now` is refused, or `None` where it is admitted: never the
/// agent itself, not within the cooldown after the last attempt, not once the retry
/// budget is used up.
pub open spec fn refusal(
    policy: KillPolicy,
    current_pid: u32,
    states: Map<u32, KillState>,
    pid: u32,
    now: u64,
) -> Option<KillError> {
    if pid == current_pid {
        Some(KillError::SelfProtected)
    } else if states.contains_key(pid) && now - states[pid].last_attempt_at < policy.cooldown_ms {
        Some(KillError::InCooldown)
    } else if attempts_of(states, pid) >= policy.max_retry_attempts {
        Some(KillError::MaxRetriesReached)
    } else {
        None
    }
}

/// The mode that an admitted kill starts with.
pub open spec fn first_mode(policy: KillPolicy) -> TerminateMode {
    if policy.graceful_kill {
        TerminateMode::Graceful
    } else {
        TerminateMode::Forceful
    }
}

/// The record of a process after a kill on it was admitted at `now`.
pub open spec fn admitted(states: Map<u32, KillState>, pid: u32, now: u64) -> KillState {
    KillState { last_attempt_at: now, attempts: attempts_of(states, pid), terminal: false }
}

/// The record of a process after it was killed at `now`.
pub open spec fn succeeded(states: Map<u32, KillState>, pid: u32, now: u64) -> KillState {
    KillState { last_attempt_at: now, attempts: attempts_of(states, pid), terminal: true }
}

/// The count of failed attempts after one more, which stays within the budget.
pub open spec fn bumped(attempts: u32, max: u32) -> u32 {
    if attempts < max {
        (attempts + 1) as u32
    } else {
        attempts
    }
}

/// The record of a process after an attempt on it failed at `now`.
pub open spec fn failed(policy: KillPolicy, states: Map<u32, KillState>, pid: u32, now: u64) -> KillState {
    let attempts = bumped(attempts_of(states, pid), policy.max_retry_attempts);
    KillState {
        last_attempt_at: now,
        attempts,
        terminal: attempts >= policy.max_retry_attempts,
    }
}

/// Whether a record is still kept at `now`: its last attempt is less than five minutes
/// ago.
pub open spec fn is_fresh(state: KillState, now: u64) -> bool {
    now - state.last_attempt_at < STATE_TTL_MS
}

/// `a + b`, or the largest value where the sum does not fit.
pub open spec fn clamped_sum(a: u64, b: u64) -> u64 {
    if a + b > u64::MAX {
        u64::MAX
    } else {
        (a + b) as u64
    }
}

fn add_clamped(a: u64, b: u64) -> (r: u64)
    ensures
        r == clamped_sum(a, b),
{
    if a > u64::MAX - b {
        u64::MAX
    } else {
        a + b
    }
}

fn keys_of(m: &HashMap<u32, KillState>) -> (out: Vec<u32>)
    ensures
        out@.to_set() == m@.dom(),
        out@.no_duplicates(),
{
    let mut out: Vec<u32> = Vec::new();
    let keys = m.keys();
    let ghost all = spec_keys_iter(m).remaining();
    for k in it: keys
        invariant
            it.seq() == all,
            out@ == all.take(it.index() as int).unref(),
    {
        out.push(*k);
    }
    proof {
        assert(all.take(all.len() as int) == all);
        assert(out@ == all.unref());
    }
    out
}

fn contains_pid(pids: &Vec<u32>, pid: u32) -> (r: bool)
    ensures
        r == pids@.contains(pid),
{
    let mut i: usize = 0;
    while i < pids.len()
        invariant
            i <= pids.len(),
            forall|k: int| 0 <= k < i ==> pids@[k] != pid,
        decreases pids.len() - i,
    {
        if pids[i] == pid {
            return true;
        }
        i += 1;
    }
    false
}

/// Whether one of the blocks is on `path` and still holds at `at`.
spec fn blocked_in(blocks: Seq<RestartBlock>, path: Seq<char>, at: u64) -> bool {
    exists|i: int|
        0 <= i < blocks.len() && (#[trigger] blocks[i]).path@ == path && at < blocks[i].until
}

proof fn lemma_blocked_in_push(blocks: Seq<RestartBlock>, last: RestartBlock, path: Seq<char>, at: u64)
    ensures
        blocked_in(blocks.push(last), path, at) == (blocked_in(blocks, path, at) || (last.path@
            == path && at < last.until)),
{
    let all = blocks.push(last);
    if blocked_in(all, path, at) {
        let i = choose|i: int|
            0 <= i < all.len() && (#[trigger] all[i]).path@ == path && at < all[i].until;
        if i < blocks.len() {
            assert(blocks[i] == all[i]);
        }
    }
    if blocked_in(blocks, path, at) {
        let i = choose|i: int|
            0 <= i < blocks.len() && (#[trigger] blocks[i]).path@ == path && at < blocks[i].until;
        assert(all[i] == blocks[i]);
    }
    if last.path@ == path && at < last.until {
        assert(all[blocks.len() as int] == last);
    }
}

/// Dropping the blocks that have run out at `now` changes nothing from `now` on.
proof fn lemma_kept_blocks(
    blocks: Seq<RestartBlock>,
    holds: spec_fn(RestartBlock) -> bool,
    now: u64,
    path: Seq<char>,
    at: u64,
)
    requires
        forall|block: RestartBlock| #[trigger] holds(block) == (now < block.until),
        at >= now,
    ensures
        blocked_in(blocks.filter(holds), path, at) == blocked_in(blocks, path, at),
    decreases blocks.len(),
{
    reveal(Seq::filter);
    if blocks.len() > 0 {
        let init = blocks.drop_last();
        let last = blocks.last();
        lemma_kept_blocks(init, holds, now, path, at);
        assert(blocks == init.push(last));
        lemma_blocked_in_push(init, last, path, at);
        if holds(last) {
            lemma_blocked_in_push(init.filter(holds), last, path, at);
        }
    }
}

proof fn lemma_block_filter_step(
    blocks: Seq<RestartBlock>,
    i: int,
    pred: spec_fn(RestartBlock) -> bool,
)
    requires
        0 <= i < blocks.len(),
    ensures
        blocks.take(i + 1).filter(pred) == if pred(blocks[i]) {
            blocks.take(i).filter(pred).push(blocks[i])
        } else {
            blocks.take(i).filter(pred)
        },
{
    reveal(Seq::filter);
    assert(blocks.take(i + 1).drop_last() == blocks.take(i));
    assert(blocks.take(i + 1).last() == blocks[i]);
}

proof fn lemma_take_next(s: Seq<u32>, i: int)
    requires
        0 <= i < s.len(),
    ensures
        forall|q: u32| s.take(i + 1).contains(q) <==> s.take(i).contains(q) || q == s[i],
{
    let seen = s.take(i);
    let next = s.take(i + 1);
    assert forall|q: u32| next.contains(q) <==> seen.contains(q) || q == s[i] by {
        if next.contains(q) {
            let k = choose|k: int| 0 <= k < next.len() && next[k] == q;
            if k < i {
                assert(seen[k] == q);
            }
        }
        if seen.contains(q) {
            let k = choose|k: int| 0 <= k < seen.len() && seen[k] == q;
            assert(next[k] == q);
        }
        if q == s[i] {
            assert(next[i] == q);
        }
    }
}

proof fn lemma_push_contains(s: Seq<u32>, x: u32)
    ensures
        forall|q: u32| s.push(x).contains(q) <==> s.contains(q) || q == x,
{
    let next = s.push(x);
    assert forall|q: u32| next.contains(q) <==> s.contains(q) || q == x by {
        if next.contains(q) {
            let k = choose|k: int| 0 <= k < next.len() && next[k] == q;
            if k < s.len() {
                assert(s[k] == q);
            }
        }
        if s.contains(q) {
            let k = choose|k: int| 0 <= k < s.len() && s[k] == q;
            assert(next[k] == q);
        }
        if q == x {
            assert(next[s.len() as int] == q);
        }
    }
}

/// The kill governor.
pub struct ProcessKiller {
    policy: KillPolicy,
    current_pid: u32,
    states: HashMap<u32, KillState>,
    restart_blocks: Vec<RestartBlock>,
}

impl ProcessKiller {
    /// The kill policy that the governor works by.
    pub closed spec fn policy(self) -> KillPolicy {
        self.policy
    }

    /// The agent's own process identifier.
    pub closed spec fn current_pid(self) -> u32 {
        self.current_pid
    }

    /// The kill records, by process identifier.
    pub closed spec fn states(self) -> Map<u32, KillState> {
        self.states@
    }

    /// Whether a process started from `path` is killed on sight at `at`.
    pub closed spec fn restart_blocked(self, path: Seq<char>, at: u64) -> bool {
        exists|i: int|
            0 <= i < self.restart_blocks@.len() && (#[trigger] self.restart_blocks@[i]).path@
                == path && at < self.restart_blocks@[i].until
    }

    /// No record holds more failed attempts than the retry budget allows.
    pub open spec fn wf(self) -> bool {
        forall|pid: u32| #[trigger]
            self.states().contains_key(pid) ==> self.states()[pid].attempts
                <= self.policy().max_retry_attempts
    }

    /// A governor without records, for an agent that runs as process `current_pid`.
    pub fn new(policy: KillPolicy, current_pid: u32) -> (k: ProcessKiller)
        ensures
            k.wf(),
            k.policy() == policy,
            k.current_pid() == current_pid,
            k.states() == Map::<u32, KillState>::empty(),
            forall|path: Seq<char>, at: u64| !k.restart_blocked(path, at),
    {
        ProcessKiller { policy, current_pid, states: HashMap::new(), restart_blocks: Vec::new() }
    }

    /// The record of a process, where there is one.
    pub fn state_of(&self, pid: u32) -> (r: Option<KillState>)
        ensures
            r == if self.states().contains_key(pid) {
                Some(self.states()[pid])
            } else {
                None
            },
    {
        match self.states.get(&pid) {
            Some(state) => Some(*state),
            None => None,
        }
    }

    fn attempts_on_record(&self, pid: u32) -> (a: u32)
        requires
            self.wf(),
        ensures
            a == attempts_of(self.states(), pid),
            a <= self.policy().max_retry_attempts,
    {
        match self.states.get(&pid) {
            Some(state) => {
                assert(self.states().contains_key(pid));
                state.attempts
            },
            None => 0,
        }
    }

    /// How many processes have a record.
    pub fn record_count(&self) -> (n: usize)
        ensures
            n == self.states().len(),
    {
        self.states.len()
    }

    /// Asks for a kill of process `pid` at `now`. Where the kill is admitted the caller
    /// terminates the process in the mode returned and reports the outcome; the
    /// admission itself counts as the last attempt from now on.
    pub fn kill_process(&mut self, pid: u32, now: u64) -> (res: Result<TerminateMode, KillError>)
        requires
            old(self).wf(),
        ensures
            final(self).wf(),
            final(self).policy() == old(self).policy(),
            final(self).current_pid() == old(self).current_pid(),
            forall|path: Seq<char>, at: u64|
                final(self).restart_blocked(path, at) == old(self).restart_blocked(path, at),
            match refusal(old(self).policy(), old(self).current_pid(), old(self).states(), pid, now) {
                Some(error) => res == Err::<TerminateMode, KillError>(error) && final(self).states()
                    == old(self).states(),
                None => res == Ok::<TerminateMode, KillError>(first_mode(old(self).policy()))
                    && final(self).states() == old(self).states().insert(
                    pid,
                    admitted(old(self).states(), pid, now),
                ),
            },
    {
        if pid == self.current_pid {
            return Err(KillError::SelfProtected);
        }
        let mut attempts: u32 = 0;
        if let Some(state) = self.states.get(&pid) {
            if now < state.last_attempt_at || now - state.last_attempt_at < self.policy.cooldown_ms {
                return Err(KillError::InCooldown);
            }
            attempts = state.attempts;
        }
        if attempts >= self.policy.max_retry_attempts {
            return Err(KillError::MaxRetriesReached);
        }
        self.states.insert(pid, KillState { last_attempt_at: now, attempts, terminal: false });
        assert(self.restart_blocks@ == old(self).restart_blocks@);
        if self.policy.graceful_kill {
            Ok(TerminateMode::Graceful)
        } else {
            Ok(TerminateMode::Forceful)
        }
    }

    /// What follows a graceful termination that returned `outcome` at `now`: where it
    /// succeeded, the wait for the exit, for the force-kill timeout at most; where it
    /// failed or is not implemented, the forceful termination at once.
    pub fn after_graceful(&self, outcome: &Result<(), KillError>, now: u64) -> (next: NextStep)
        ensures
            next == match *outcome {
                Ok(_) => NextStep::AwaitExit {
                    until: clamped_sum(now, self.policy().force_kill_timeout_ms),
                },
                Err(_) => NextStep::ForceKill,
            },
    {
        match outcome {
            Ok(_) => NextStep::AwaitExit {
                until: add_clamped(now, self.policy.force_kill_timeout_ms),
            },
            Err(_) => NextStep::ForceKill,
        }
    }

    /// Records that process `pid` was killed at `now`. Where its executable is known, a
    /// process started from it within the next five seconds is killed on sight.
    pub fn record_success(&mut self, pid: u32, path: &Option<String>, now: u64)
        requires
            old(self).wf(),
        ensures
            final(self).wf(),
            final(self).policy() == old(self).policy(),
            final(self).current_pid() == old(self).current_pid(),
            final(self).states() == old(self).states().insert(
                pid,
                succeeded(old(self).states(), pid, now),
            ),
            forall|q: Seq<char>, at: u64|
                final(self).restart_blocked(q, at) == (old(self).restart_blocked(q, at) || (
                *path matches Some(p) && q == p@ && at < clamped_sum(now, RESTART_BLOCK_MS))),
    {
        let attempts = self.attempts_on_record(pid);
        self.states.insert(pid, KillState { last_attempt_at: now, attempts, terminal: true });
        if let Some(p) = path {
            let ghost before = self.restart_blocks@;
            let until = add_clamped(now, RESTART_BLOCK_MS);
            self.restart_blocks.push(RestartBlock { path: p.clone(), until });
            assert forall|q: Seq<char>, at: u64|
                self.restart_blocked(q, at) == (old(self).restart_blocked(q, at) || (q == p@ && at
                    < until)) by {
                let after = self.restart_blocks@;
                if old(self).restart_blocked(q, at) {
                    let i = choose|i: int|
                        0 <= i < before.len() && (#[trigger] before[i]).path@ == q && at
                            < before[i].until;
                    assert(after[i] == before[i]);
                }
                if q == p@ && at < until {
                    assert(after[before.len() as int].path@ == q);
                }
                if self.restart_blocked(q, at) {
                    let i = choose|i: int|
                        0 <= i < after.len() && (#[trigger] after[i]).path@ == q && at
                            < after[i].until;
                    if i < before.len() {
                        assert(before[i] == after[i]);
                    }
                }
            }
        }
    }

    /// Records that an attempt on process `pid` failed with `error` at `now`, and hands
    /// the error back.
    pub fn record_failure(&mut self, pid: u32, error: KillError, now: u64) -> (e: KillError)
        requires
            old(self).wf(),
        ensures
            final(self).wf(),
            final(self).policy() == old(self).policy(),
            final(self).current_pid() == old(self).current_pid(),
            e == error,
            final(self).states() == old(self).states().insert(
                pid,
                failed(old(self).policy(), old(self).states(), pid, now),
            ),
            forall|path: Seq<char>, at: u64|
                final(self).restart_blocked(path, at) == old(self).restart_blocked(path, at),
    {
        let before = self.attempts_on_record(pid);
        let attempts: u32 = if before < self.policy.max_retry_attempts {
            before + 1
        } else {
            before
        };
        self.states.insert(
            pid,
            KillState {
                last_attempt_at: now,
                attempts,
                terminal: attempts >= self.policy.max_retry_attempts,
            },
        );
        assert(self.restart_blocks@ == old(self).restart_blocks@);
        error
    }

    /// Whether a process started from `path` is to be killed on sight at `now`.
    pub fn is_restart_blocked(&self, path: &str, now: u64) -> (r: bool)
        ensures
            r == self.restart_blocked(path@, now),
    {
        let mut i: usize = 0;
        while i < self.restart_blocks.len()
            invariant
                i <= self.restart_blocks.len(),
                forall|k: int|
                    0 <= k < i ==> !((#[trigger] self.restart_blocks@[k]).path@ == path@ && now
                        < self.restart_blocks@[k].until),
            decreases self.restart_blocks.len() - i,
        {
            let block = &self.restart_blocks[i];
            if now < block.until && same_text(block.path.as_str(), path) {
                return true;
            }
            i += 1;
        }
        false
    }

    /// The processes whose record is no longer fresh at `now`.
    fn stale_pids(&self, now: u64) -> (out: Vec<u32>)
        ensures
            forall|pid: u32|
                #![trigger out@.contains(pid)]
                out@.contains(pid) <==> self.states().contains_key(pid) && !is_fresh(
                    self.states()[pid],
                    now,
                ),
    {
        let keys = keys_of(&self.states);
        let mut out: Vec<u32> = Vec::new();
        let mut i: usize = 0;
        while i < keys.len()
            invariant
                i <= keys.len(),
                keys@.to_set() == self.states@.dom(),
                forall|pid: u32|
                    out@.contains(pid) <==> keys@.take(i as int).contains(pid) && !is_fresh(
                        self.states@[pid],
                        now,
                    ),
            decreases keys.len() - i,
        {
            let pid = keys[i];
            assert(keys@.to_set().contains(pid));
            let stale = match self.states.get(&pid) {
                Some(state) => now >= state.last_attempt_at && now - state.last_attempt_at
                    >= STATE_TTL_MS,
                None => false,
            };
            proof {
                lemma_take_next(keys@, i as int);
            }
            let ghost prev = out@;
            if stale {
                out.push(pid);
                proof {
                    lemma_push_contains(prev, pid);
                }
            }
            assert forall|q: u32|
                out@.contains(q) <==> keys@.take(i + 1).contains(q) && !is_fresh(
                    self.states@[q],
                    now,
                ) by {
                assert(prev.contains(q) <==> keys@.take(i as int).contains(q) && !is_fresh(
                    self.states@[q],
                    now,
                ));
            }
            i += 1;
        }
        proof {
            assert(keys@.take(keys.len() as int) == keys@);
            assert forall|pid: u32| self.states@.contains_key(pid) implies keys@.contains(pid) by {
                assert(keys@.to_set().contains(pid));
            }
            assert forall|pid: u32| keys@.contains(pid) implies self.states@.contains_key(pid) by {
                assert(keys@.to_set().contains(pid));
            }
        }
        out
    }

    /// The processes that have a record and are not among `live`.
    fn missing_pids(&self, live: &Vec<u32>) -> (out: Vec<u32>)
        ensures
            forall|pid: u32|
                #![trigger out@.contains(pid)]
                out@.contains(pid) <==> self.states().contains_key(pid) && !live@.contains(pid),
    {
        let keys = keys_of(&self.states);
        let mut out: Vec<u32> = Vec::new();
        let mut i: usize = 0;
        while i < keys.len()
            invariant
                i <= keys.len(),
                keys@.to_set() == self.states@.dom(),
                forall|pid: u32|
                    out@.contains(pid) <==> keys@.take(i as int).contains(pid) && !live@.contains(
                        pid,
                    ),
            decreases keys.len() - i,
        {
            let pid = keys[i];
            proof {
                lemma_take_next(keys@, i as int);
            }
            let ghost prev = out@;
            if !contains_pid(live, pid) {
                out.push(pid);
                proof {
                    lemma_push_contains(prev, pid);
                }
            }
            assert forall|q: u32|
                out@.contains(q) <==> keys@.take(i + 1).contains(q) && !live@.contains(q) by {
                assert(prev.contains(q) <==> keys@.take(i as int).contains(q) && !live@.contains(q));
            }
            i += 1;
        }
        proof {
            assert(keys@.take(keys.len() as int) == keys@);
            assert forall|pid: u32| self.states@.contains_key(pid) implies keys@.contains(pid) by {
                assert(keys@.to_set().contains(pid));
            }
            assert forall|pid: u32| keys@.contains(pid) implies self.states@.contains_key(pid) by {
                assert(keys@.to_set().contains(pid));
            }
        }
        out
    }

    /// Drops the records of the processes listed.
    fn drop_records(&mut self, doomed: &Vec<u32>)
        requires
            old(self).wf(),
        ensures
            final(self).wf(),
            final(self).policy() == old(self).policy(),
            final(self).current_pid() == old(self).current_pid(),
            final(self).restart_blocks == old(self).restart_blocks,
            forall|pid: u32|
                #![trigger final(self).states().contains_key(pid)]
                #![trigger doomed@.contains(pid)]
                final(self).states().contains_key(pid) <==> old(self).states().contains_key(pid)
                    && !doomed@.contains(pid),
            forall|pid: u32| #[trigger]
                final(self).states().contains_key(pid) ==> final(self).states()[pid] == old(
                    self,
                ).states()[pid],
    {
        let mut i: usize = 0;
        while i < doomed.len()
            invariant
                i <= doomed.len(),
                self.policy == old(self).policy,
                self.current_pid == old(self).current_pid,
                self.restart_blocks == old(self).restart_blocks,
                forall|pid: u32|
                    self.states@.contains_key(pid) <==> old(self).states@.contains_key(pid)
                        && !doomed@.take(i as int).contains(pid),
                forall|pid: u32| #[trigger]
                    self.states@.contains_key(pid) ==> self.states@[pid] == old(self).states@[pid],
            decreases doomed.len() - i,
        {
            proof {
                lemma_take_next(doomed@, i as int);
            }
            self.states.remove(&doomed[i]);
            i += 1;
        }
        proof {
            assert(doomed@.take(doomed.len() as int) == doomed@);
            assert forall|pid: u32| #[trigger] self.states().contains_key(pid) implies self.states()[pid].attempts
                <= self.policy().max_retry_attempts by {
                assert(old(self).states().contains_key(pid));
            }
        }
    }

    /// Drops the restart blocks that have run out at `now`: those that still hold stay,
    /// in their order.
    fn drop_expired_blocks(&mut self, now: u64)
        ensures
            final(self).policy == old(self).policy,
            final(self).current_pid == old(self).current_pid,
            final(self).states == old(self).states,
            final(self).restart_blocks@ == old(self).restart_blocks@.filter(
                |block: RestartBlock| now < block.until,
            ),
            forall|path: Seq<char>, at: u64|
                at >= now ==> final(self).restart_blocked(path, at) == old(self).restart_blocked(
                    path,
                    at,
                ),
    {
        let ghost blocks = self.restart_blocks@;
        let ghost holds = |block: RestartBlock| now < block.until;
        let mut kept: Vec<RestartBlock> = Vec::new();
        let mut j: usize = 0;
        assert(blocks.take(0).filter(holds) == Seq::<RestartBlock>::empty()) by {
            reveal(Seq::filter);
        }
        while j < self.restart_blocks.len()
            invariant
                j <= self.restart_blocks.len(),
                self.restart_blocks@ == blocks,
                self.policy == old(self).policy,
                self.current_pid == old(self).current_pid,
                self.states == old(self).states,
                holds == |block: RestartBlock| now < block.until,
                kept@ == blocks.take(j as int).filter(holds),
            decreases self.restart_blocks.len() - j,
        {
            let block = &self.restart_blocks[j];
            proof {
                lemma_block_filter_step(blocks, j as int, holds);
            }
            if now < block.until {
                kept.push(RestartBlock { path: block.path.clone(), until: block.until });
            }
            j += 1;
        }
        assert(blocks.take(blocks.len() as int) == blocks);
        self.restart_blocks = kept;
        assert forall|path: Seq<char>, at: u64| at >= now implies self.restart_blocked(path, at)
            == old(self).restart_blocked(path, at) by {
            lemma_kept_blocks(blocks, holds, now, path, at);
            assert(self.restart_blocked(path, at) == blocked_in(blocks.filter(holds), path, at));
            assert(old(self).restart_blocked(path, at) == blocked_in(blocks, path, at));
        }
    }

    /// Drops the records whose last attempt is five minutes ago or more, and the restart
    /// blocks that have run out.
    pub fn cleanup_old_entries(&mut self, now: u64)
        requires
            old(self).wf(),
        ensures
            final(self).wf(),
            final(self).policy() == old(self).policy(),
            final(self).current_pid() == old(self).current_pid(),
            forall|pid: u32|
                #![trigger final(self).states().contains_key(pid)]
                #![trigger old(self).states().contains_key(pid)]
                final(self).states().contains_key(pid) <==> old(self).states().contains_key(pid)
                    && is_fresh(old(self).states()[pid], now),
            forall|pid: u32| #[trigger]
                final(self).states().contains_key(pid) ==> final(self).states()[pid] == old(
                    self,
                ).states()[pid],
            forall|path: Seq<char>, at: u64|
                at >= now ==> final(self).restart_blocked(path, at) == old(self).restart_blocked(
                    path,
                    at,
                ),
    {
        let doomed = self.stale_pids(now);
        self.drop_records(&doomed);
        let ghost mid = *self;
        self.drop_expired_blocks(now);
        proof {
            assert(self.states() == mid.states());
            assert forall|pid: u32|
                self.states().contains_key(pid) <==> old(self).states().contains_key(pid)
                    && is_fresh(old(self).states()[pid], now) by {
                assert(mid.states().contains_key(pid) <==> old(self).states().contains_key(pid)
                    && !doomed@.contains(pid));
                assert(doomed@.contains(pid) <==> old(self).states().contains_key(pid) && !is_fresh(
                    old(self).states()[pid],
                    now,
                ));
            }
            assert forall|pid: u32| #[trigger] self.states().contains_key(pid) implies self.states()[pid]
                == old(self).states()[pid] && self.states()[pid].attempts
                <= self.policy().max_retry_attempts by {
                assert(mid.states().contains_key(pid));
            }
        }
    }

    /// Drops the records of the processes that are not among `live`.
    pub fn forget_missing(&mut self, live: &Vec<u32>)
        requires
            old(self).wf(),
        ensures
            final(self).wf(),
            final(self).policy() == old(self).policy(),
            final(self).current_pid() == old(self).current_pid(),
            forall|pid: u32|
                #![trigger final(self).states().contains_key(pid)]
                #![trigger old(self).states().contains_key(pid)]
                final(self).states().contains_key(pid) <==> old(self).states().contains_key(pid)
                    && live@.contains(pid),
            forall|pid: u32| #[trigger]
                final(self).states().contains_key(pid) ==> final(self).states()[pid] == old(
                    self,
                ).states()[pid],
            forall|path: Seq<char>, at: u64|
                final(self).restart_blocked(path, at) == old(self).restart_blocked(path, at),
    {
        let doomed = self.missing_pids(live);
        self.drop_records(&doomed);
        proof {
            assert(self.restart_blocks@ == old(self).restart_blocks@);
            assert forall|pid: u32|
                self.states().contains_key(pid) <==> old(self).states().contains_key(pid)
                    && live@.contains(pid) by {
                assert(self.states().contains_key(pid) <==> old(self).states().contains_key(pid)
                    && !doomed@.contains(pid));
                assert(doomed@.contains(pid) <==> old(self).states().contains_key(pid)
                    && !live@.contains(pid));
            }
        }
    }
}

/// Cooldown: where a kill of a process is admitted at `first` and the next one at `next`,
/// the two lie at least the cooldown apart.
pub proof fn law_cooldown(
    policy: KillPolicy,
    current_pid: u32,
    states: Map<u32, KillState>,
    pid: u32,
    first: u64,
    next: u64,
)
    requires
        refusal(policy, current_pid, states, pid, first) is None,
        refusal(policy, current_pid, states.insert(pid, admitted(states, pid, first)), pid, next)
            is None,
    ensures
        next - first >= policy.cooldown_ms,
{
}

/// Cooldown after an outcome: where the outcome of an admitted kill is recorded at
/// `reported`, success or failure, the next kill of that process is admitted no sooner
/// than the cooldown after the report, and so after the first admission.
pub proof fn law_cooldown_after_outcome(
    policy: KillPolicy,
    current_pid: u32,
    states: Map<u32, KillState>,
    pid: u32,
    first: u64,
    reported: u64,
    success: bool,
    next: u64,
)
    requires
        refusal(policy, current_pid, states, pid, first) is None,
        first <= reported,
        ({
            let begun = states.insert(pid, admitted(states, pid, first));
            let told = begun.insert(
                pid,
                if success {
                    succeeded(begun, pid, reported)
                } else {
                    failed(policy, begun, pid, reported)
                },
            );
            refusal(policy, current_pid, told, pid, next) is None
        }),
    ensures
        next - reported >= policy.cooldown_ms,
        next - first >= policy.cooldown_ms,
{
}

/// Retry bound: a kill is admitted only while fewer failed attempts are on record than
/// the budget allows, and the failure of an admitted kill adds exactly one, so that the
/// count on record never passes the budget.
pub proof fn law_retry_bound(
    policy: KillPolicy,
    current_pid: u32,
    states: Map<u32, KillState>,
    pid: u32,
    now: u64,
    reported: u64,
)
    requires
        refusal(policy, current_pid, states, pid, now) is None,
    ensures
        attempts_of(states, pid) < policy.max_retry_attempts,
        ({
            let begun = states.insert(pid, admitted(states, pid, now));
            let after = failed(policy, begun, pid, reported);
            &&& after.attempts == attempts_of(states, pid) + 1
            &&& after.attempts <= policy.max_retry_attempts
            &&& after.terminal == (after.attempts == policy.max_retry_attempts)
        }),
{
}

/// Once the budget is used up no further kill of the process is admitted, at any time.
pub proof fn law_budget_used_up(
    policy: KillPolicy,
    current_pid: u32,
    states: Map<u32, KillState>,
    pid: u32,
    now: u64,
)
    requires
        attempts_of(states, pid) >= policy.max_retry_attempts,
    ensures
        refusal(policy, current_pid, states, pid, now) is Some,
{
}

/// The agent itself is never admitted as a target.
pub proof fn law_self_is_refused(
    policy: KillPolicy,
    current_pid: u32,
    states: Map<u32, KillState>,
    now: u64,
)
    ensures
        refusal(policy, current_pid, states, current_pid, now) == Some(KillError::SelfProtected),
{
}

} // verus!

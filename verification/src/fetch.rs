//! The retrying, timeout-bounded fetch call as a state machine.
//!
//! The host issues one GET per attempt, races it against the timeout, and
//! feeds the classified outcome back in; the machine decides whether to
//! return, retry after the fixed delay, or give up and record the failure.

use vstd::prelude::*;

use crate::text::{contains_substr, find_substr, substr_at};
use crate::FailureRecord;

verus! {

/// Why one attempt failed. Every kind is retried identically.
pub enum FailureKind {
    Timeout,
    Http,
    Transport,
}

/// One failed attempt: its kind and the host-rendered error message.
pub struct AttemptFailure {
    pub kind: FailureKind,
    pub message: String,
}

/// How one attempt settled.
pub enum AttemptOutcome {
    Success,
    Failed(AttemptFailure),
}

/// What the host must do next with this call.
pub enum FetchStep {
    Done,
    RetryAfterDelay { delay_ms: u32 },
    GiveUp,
}

pub const DEFAULT_TIMEOUT_MS: u32 = 5000;

pub const DEFAULT_DELAY_MS: u32 = 300;

pub const DEFAULT_RETRIES: u32 = 20;

/// `r` is `u` with everything before the first `"v4/"` stripped; a URL
/// without the marker stays whole.
pub open spec fn is_redacted(u: Seq<char>, r: Seq<char>) -> bool {
    if contains_substr(u, "v4/"@) {
        exists|i: int|
            substr_at(u, i, "v4/"@) && (forall|k: int| 0 <= k < i ==> !substr_at(u, k, "v4/"@))
                && r == u.subrange(i, u.len() as int)
    } else {
        r == u
    }
}

/// Strips the scheme/host/version prefix off a request URL, so that a
/// recorded failure does not leak them.
pub fn redact_url(url: &str) -> (r: String)
    ensures
        is_redacted(url@, r@),
{
    match find_substr(url, "v4/") {
        Some(i) => {
            let n = url.unicode_len();
            String::from_str(url.substring_char(i, n))
        },
        None => String::from_str(url),
    }
}

/// The record a call leaves behind when it exhausts its retries.
pub open spec fn terminal_record(r: FailureRecord, c: FetchCall, f: AttemptFailure) -> bool {
    &&& is_redacted(c.url@, r.url@)
    &&& r.project_name == c.project_name
    &&& r.author == c.author
    &&& r.operation == c.operation
    &&& r.error == f.message
}

/// One logical fetch: its identity, its retry policy, and how many
/// attempts have settled so far.
pub struct FetchCall {
    pub url: String,
    pub operation: String,
    pub project_name: Option<String>,
    pub author: Option<String>,
    pub timeout_ms: u32,
    pub delay_ms: u32,
    pub retries: u32,
    pub attempts: u32,
    pub settled: bool,
}

impl FetchCall {
    pub open spec fn wf(self) -> bool {
        &&& self.retries >= 1
        &&& self.attempts <= self.retries
    }

    /// A fresh call under an explicit retry policy.
    pub fn with_policy(
        url: String,
        operation: String,
        project_name: Option<String>,
        author: Option<String>,
        timeout_ms: u32,
        delay_ms: u32,
        retries: u32,
    ) -> (r: FetchCall)
        requires
            retries >= 1,
        ensures
            r.wf(),
            r.attempts == 0,
            !r.settled,
            r.url == url,
            r.operation == operation,
            r.project_name == project_name,
            r.author == author,
            r.timeout_ms == timeout_ms,
            r.delay_ms == delay_ms,
            r.retries == retries,
    {
        FetchCall {
            url,
            operation,
            project_name,
            author,
            timeout_ms,
            delay_ms,
            retries,
            attempts: 0,
            settled: false,
        }
    }

    /// A fresh call under the default policy: 5000 ms per attempt, 300 ms
    /// between attempts, 20 attempts in all.
    pub fn new(
        url: String,
        operation: String,
        project_name: Option<String>,
        author: Option<String>,
    ) -> (r: FetchCall)
        ensures
            r.wf(),
            r.attempts == 0,
            !r.settled,
            r.url == url,
            r.operation == operation,
            r.project_name == project_name,
            r.author == author,
            r.timeout_ms == DEFAULT_TIMEOUT_MS,
            r.delay_ms == DEFAULT_DELAY_MS,
            r.retries == DEFAULT_RETRIES,
    {
        FetchCall::with_policy(
            url,
            operation,
            project_name,
            author,
            DEFAULT_TIMEOUT_MS,
            DEFAULT_DELAY_MS,
            DEFAULT_RETRIES,
        )
    }

    /// Settles one attempt. A success ends the call at once and records
    /// nothing. A failure before the last allowed attempt asks the host to
    /// retry after the fixed delay and records nothing. A failure on the
    /// last allowed attempt gives up and appends exactly one failure
    /// record, with the redacted URL and the attempt's error message.
    pub fn on_outcome(&mut self, outcome: AttemptOutcome, log: &mut Vec<FailureRecord>) -> (step:
        FetchStep)
        requires
            old(self).wf(),
            !old(self).settled,
            old(self).attempts < old(self).retries,
        ensures
            final(self).wf(),
            final(self).attempts == old(self).attempts + 1,
            final(self).url == old(self).url,
            final(self).operation == old(self).operation,
            final(self).project_name == old(self).project_name,
            final(self).author == old(self).author,
            final(self).timeout_ms == old(self).timeout_ms,
            final(self).delay_ms == old(self).delay_ms,
            final(self).retries == old(self).retries,
            outcome is Failed ==> ((step is GiveUp) <==> steps_on_constant_failure(
                old(self).attempts as nat,
                old(self).retries as nat,
            )[0] == false),
            match outcome {
                AttemptOutcome::Success => {
                    &&& step == FetchStep::Done
                    &&& final(self).settled
                    &&& final(log)@ == old(log)@
                },
                AttemptOutcome::Failed(f) => {
                    if old(self).attempts + 1 < old(self).retries {
                        &&& step == (FetchStep::RetryAfterDelay { delay_ms: old(self).delay_ms })
                        &&& !final(self).settled
                        &&& final(log)@ == old(log)@
                    } else {
                        &&& step == FetchStep::GiveUp
                        &&& final(self).settled
                        &&& final(log)@.len() == old(log)@.len() + 1
                        &&& forall|i: int| 0 <= i < old(log)@.len() ==> final(log)@[i] == old(log)@[i]
                        &&& terminal_record(final(log)@.last(), *old(self), f)
                    }
                },
            },
    {
        self.attempts = self.attempts + 1;
        match outcome {
            AttemptOutcome::Success => {
                self.settled = true;
                FetchStep::Done
            },
            AttemptOutcome::Failed(f) => {
                if self.attempts < self.retries {
                    FetchStep::RetryAfterDelay { delay_ms: self.delay_ms }
                } else {
                    self.settled = true;
                    let record = FailureRecord {
                        url: redact_url(self.url.as_str()),
                        project_name: match &self.project_name {
                            Some(p) => Some(p.clone()),
                            None => None,
                        },
                        author: match &self.author {
                            Some(a) => Some(a.clone()),
                            None => None,
                        },
                        operation: self.operation.clone(),
                        error: f.message,
                    };
                    log.push(record);
                    FetchStep::GiveUp
                }
            },
        }
    }
}

/// The schedule a call follows when every attempt fails, starting after
/// `attempts` settled attempts: one entry per remaining attempt, `true`
/// for a delayed retry and `false` for giving up.
pub open spec fn steps_on_constant_failure(attempts: nat, retries: nat) -> Seq<bool>
    decreases retries - attempts,
{
    if attempts + 1 >= retries {
        seq![false]
    } else {
        seq![true] + steps_on_constant_failure(attempts + 1, retries)
    }
}

/// Against a transport that always fails, a fresh call performs exactly
/// `retries` attempts: each of the first `retries - 1` asks for a delayed
/// retry, and the last gives up. With `on_outcome`'s contract, exactly one
/// failure record is appended, by the final attempt.
pub proof fn lemma_retry_termination(retries: nat)
    requires
        retries >= 1,
    ensures
        steps_on_constant_failure(0, retries).len() == retries,
        forall|i: int| 0 <= i < retries - 1 ==> steps_on_constant_failure(0, retries)[i] == true,
        steps_on_constant_failure(0, retries)[retries - 1] == false,
{
    lemma_constant_failure_schedule(0, retries);
}

proof fn lemma_constant_failure_schedule(attempts: nat, retries: nat)
    requires
        attempts < retries,
    ensures
        steps_on_constant_failure(attempts, retries).len() == retries - attempts,
        forall|i: int|
            0 <= i < retries - attempts - 1 ==> steps_on_constant_failure(attempts, retries)[i]
                == true,
        steps_on_constant_failure(attempts, retries)[retries - attempts - 1] == false,
    decreases retries - attempts,
{
    if attempts + 1 < retries {
        lemma_constant_failure_schedule(attempts + 1, retries);
    }
}

} // verus!

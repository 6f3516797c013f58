//! The ledger client's own logic: the requests of its three operations and
//! the retry policy for transient upstream failures. The HTTP exchange itself
//! is made by the caller, which hands back each response's status.

use crate::text::{decimal, decimal_text};
use crate::{BeamId, Mtime};
use vstd::prelude::*;
use vstd::string::*;

verus! {

/// Seconds to wait after a transient upstream failure.
pub const TIME_TO_SLEEP: u64 = 5;

/// The time, in seconds, that the retries of one request may take.
pub const RETRY_BUDGET: u64 = 12000;

/// The number of attempts of one request.
pub const MAX_ATTEMPTS: u64 = RETRY_BUDGET / TIME_TO_SLEEP;

pub const STATUS_OK: u16 = 200;

pub const STATUS_BAD_GATEWAY: u16 = 502;

pub const STATUS_GATEWAY_TIMEOUT: u16 = 504;

/// Body of the request that announces a file.
pub struct FilePostRequest {
    pub file_name: String,
    pub beam_id: BeamId,
}

/// The ledger's answer to an announced file.
pub struct FilePostResponse {
    pub file_id: String,
    pub storage_name: String,
    pub should_beam: bool,
}

/// Body of the request that reports a file's outcome.
pub struct FileUpdateRequest {
    pub success: bool,
    pub error: String,
    pub size: Option<u64>,
    pub mtime: Option<Mtime>,
    pub checksum: Option<String>,
}

pub struct BeamUpdateDocument {
    pub completed: bool,
    pub error: Option<String>,
}

/// Body of the request that reports a session's outcome.
pub struct BeamUpdateRequest {
    pub beam: BeamUpdateDocument,
}

impl BeamUpdateRequest {
    pub fn new(completed: bool, error: Option<String>) -> (r: BeamUpdateRequest)
        ensures
            r.beam.completed == completed,
            r.beam.error == error,
    {
        BeamUpdateRequest { beam: BeamUpdateDocument { completed, error } }
    }
}

/// One request to the ledger: where it goes and what it carries. A file is
/// announced with `POST`; outcomes are reported with `PUT`.
pub enum LedgerRequest {
    BeginFile { url: String, body: FilePostRequest },
    EndFile { url: String, body: FileUpdateRequest },
    EndBeam { url: String, body: BeamUpdateRequest },
}

impl LedgerRequest {
    /// Whether the request is sent with `POST` (else with `PUT`).
    pub fn is_post(&self) -> (r: bool)
        ensures
            r == (self is BeginFile),
    {
        matches!(self, LedgerRequest::BeginFile { .. })
    }
}

/// The ledger's base address.
pub struct Scotty {
    url: String,
}

impl Scotty {
    pub closed spec fn base(&self) -> Seq<char> {
        self.url@
    }

    pub fn new(url: String) -> (r: Scotty)
        ensures
            r.base() == url@,
    {
        Scotty { url }
    }

    /// The request that announces the file `file_name` of session `beam_id`.
    pub fn file_beam_start(&self, beam_id: BeamId, file_name: String) -> (r: LedgerRequest)
        ensures
            r matches LedgerRequest::BeginFile { url, body } && url@ == self.base() + "/files"@
                && body.file_name@ == file_name@ && body.beam_id == beam_id,
    {
        let url = self.url.clone().concat("/files");
        LedgerRequest::BeginFile { url, body: FilePostRequest { file_name, beam_id } }
    }

    /// The request that reports the outcome of file `file_id`: a success with
    /// its metrics when `err` is `None`, else a failure with its description.
    pub fn file_beam_end(
        &self,
        file_id: &str,
        err: Option<String>,
        file_size: Option<u64>,
        file_checksum: Option<String>,
        mtime: Option<Mtime>,
    ) -> (r: LedgerRequest)
        ensures
            r matches LedgerRequest::EndFile { url, body } && url@ == self.base() + "/files/"@
                + file_id@ && body.success == (err is None) && (match err {
                Some(e) => body.error@ == e@,
                None => body.error@ == Seq::<char>::empty(),
            }) && body.size == file_size && body.checksum == file_checksum && body.mtime
                == mtime,
    {
        let url = self.url.clone().concat("/files/").concat(file_id);
        let success = err.is_none();
        let error = match err {
            Some(e) => e,
            None => String::new(),
        };
        LedgerRequest::EndFile {
            url,
            body: FileUpdateRequest {
                success,
                error,
                size: file_size,
                mtime,
                checksum: file_checksum,
            },
        }
    }

    /// The request that reports the end of session `beam_id`, with the
    /// session's failure if it failed.
    pub fn complete_beam(&self, beam_id: BeamId, error: Option<String>) -> (r: LedgerRequest)
        ensures
            r matches LedgerRequest::EndBeam { url, body } && url@ == self.base() + "/beams/"@
                + decimal(beam_id as nat) && body.beam.completed && body.beam.error == error,
    {
        let digits = decimal_text(beam_id);
        let url = self.url.clone().concat("/beams/").concat(digits.as_str());
        LedgerRequest::EndBeam { url, body: BeamUpdateRequest::new(true, error) }
    }
}

/// What to do after one response to a ledger request.
#[derive(Debug, Clone, Copy, PartialEq, Eq, Structural)]
pub enum RetryDecision {
    /// The request succeeded.
    Success,
    /// A transient upstream failure: wait this many seconds and try again.
    Wait(u64),
    /// A failure that is not retried: the status.
    Fail(u16),
    /// The last attempt met a transient failure: the ledger is unreachable.
    GiveUp,
}

/// Whether a status is a transient upstream failure.
pub open spec fn unavailable(status: u16) -> bool {
    status == STATUS_BAD_GATEWAY || status == STATUS_GATEWAY_TIMEOUT
}

/// The decision after the response `status` to attempt number `made`
/// (counting from one).
pub open spec fn decide(made: nat, status: u16) -> RetryDecision {
    if status == STATUS_OK {
        RetryDecision::Success
    } else if unavailable(status) {
        if made < MAX_ATTEMPTS {
            RetryDecision::Wait(TIME_TO_SLEEP)
        } else {
            RetryDecision::GiveUp
        }
    } else {
        RetryDecision::Fail(status)
    }
}

/// The attempts of one logical ledger request.
pub struct Retry {
    attempts: u64,
}

impl Retry {
    /// The number of attempts made so far.
    pub closed spec fn made(&self) -> nat {
        self.attempts as nat
    }

    pub fn new() -> (r: Retry)
        ensures
            r.made() == 0,
    {
        Retry { attempts: 0 }
    }

    /// Whether another attempt may be made.
    pub fn may_attempt(&self) -> (r: bool)
        ensures
            r == (self.made() < MAX_ATTEMPTS),
    {
        self.attempts < MAX_ATTEMPTS
    }

    /// Records the response `status` to one more attempt and decides what
    /// follows.
    pub fn on_status(&mut self, status: u16) -> (r: RetryDecision)
        requires
            old(self).made() < MAX_ATTEMPTS,
        ensures
            final(self).made() == old(self).made() + 1,
            r == decide(final(self).made(), status),
    {
        self.attempts = self.attempts + 1;
        if status == STATUS_OK {
            RetryDecision::Success
        } else if status == STATUS_BAD_GATEWAY || status == STATUS_GATEWAY_TIMEOUT {
            if self.attempts < MAX_ATTEMPTS {
                RetryDecision::Wait(TIME_TO_SLEEP)
            } else {
                RetryDecision::GiveUp
            }
        } else {
            RetryDecision::Fail(status)
        }
    }
}

/// Replays the policy over the responses `statuses`, after `made` attempts:
/// the decision that ended it (`None` if the responses ran out first), the
/// waits taken and the responses consumed.
pub open spec fn replay(made: nat, statuses: Seq<u16>) -> (Option<RetryDecision>, nat, nat)
    decreases statuses.len(),
{
    if statuses.len() == 0 {
        (None, 0, 0)
    } else {
        match decide(made + 1, statuses[0]) {
            RetryDecision::Wait(_) => {
                let (d, waits, used) = replay(made + 1, statuses.drop_first());
                (d, waits + 1, used + 1)
            },
            d => (Some(d), 0, 1),
        }
    }
}

/// A run of transient failures: `n` responses of `status`.
pub open spec fn failures(status: u16, n: nat) -> Seq<u16> {
    Seq::new(n, |i: int| status)
}

/// A ledger request that meets `n` transient failures and then a success
/// succeeds once, after `n` waits, as long as the attempts last.
pub proof fn lemma_retry_then_success(made: nat, status: u16, n: nat, rest: Seq<u16>)
    requires
        unavailable(status),
        made + n < MAX_ATTEMPTS,
    ensures
        replay(made, failures(status, n) + seq![STATUS_OK] + rest) == (
        Some(RetryDecision::Success),
        n,
        n + 1,
        ),
    decreases n,
{
    let s = failures(status, n) + seq![STATUS_OK] + rest;
    if n > 0 {
        assert(s[0] == status);
        assert(s.drop_first() == failures(status, (n - 1) as nat) + seq![STATUS_OK] + rest);
        lemma_retry_then_success(made + 1, status, (n - 1) as nat, rest);
    } else {
        assert(s[0] == STATUS_OK);
    }
}

/// A ledger request whose every attempt meets a transient failure gives up
/// at the last attempt, and makes no attempt after it.
pub proof fn lemma_retry_gives_up(made: nat, status: u16, n: nat, rest: Seq<u16>)
    requires
        unavailable(status),
        n >= 1,
        made + n == MAX_ATTEMPTS,
    ensures
        replay(made, failures(status, n) + rest) == (
        Some(RetryDecision::GiveUp),
        (n - 1) as nat,
        n,
        ),
    decreases n,
{
    let s = failures(status, n) + rest;
    assert(s[0] == status);
    if n > 1 {
        assert(s.drop_first() == failures(status, (n - 1) as nat) + rest);
        lemma_retry_gives_up(made + 1, status, (n - 1) as nat, rest);
    }
}

} // verus!

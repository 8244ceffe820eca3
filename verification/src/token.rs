//! Token manager: the credentials cell and the refresh retry policy.
//!
//! The cell holds a long-lived refresh token and, after the first
//! successful refresh, a short-lived access token. The retry policy
//! drives a refresh session of up to ten attempts: transient failures
//! (connection errors, request timeouts, HTTP status 429) are retried
//! after a pause, and a non-retryable failure with a persisted
//! bootstrap token on hand swaps that token in silently and retries.
//! The caller performs each network attempt and feeds the outcome to
//! [`RefreshSession::step`]; the session decides what happens next.
use vstd::prelude::*;

verus! {

/// A refresh session is given up after this many attempts.
pub const MAX_REFRESH_ATTEMPTS: u8 = 10;

/// Seconds a background refresh worker waits before its next refresh
/// when no `expires_in` was ever observed.
pub const DEFAULT_REFRESH_DELAY_SECS: u64 = 7000;

/// Seconds subtracted from an observed `expires_in` so that the next
/// background refresh lands before the access token expires.
pub const REFRESH_MARGIN_SECS: u64 = 200;

/// The fields of a refresh response that the driver consumes.
pub struct RefreshInfo {
    /// Replaces the cell's refresh token.
    pub refresh_token: String,
    /// Replaces the cell's access token.
    pub access_token: String,
    /// Seconds until the new access token expires.
    pub expires_in: u64,
    /// The identifier of the account's default drive.
    pub default_drive_id: String,
    /// The account's display name.
    pub nick_name: String,
}

/// The shared credentials cell: one refresh token, and an access token
/// once the first refresh has succeeded.
#[derive(Debug, Clone)]
pub struct Credentials {
    /// The long-lived token exchanged for access tokens.
    pub refresh_token: String,
    /// The short-lived bearer token, absent until the first successful
    /// refresh.
    pub access_token: Option<String>,
}

impl Credentials {
    /// A fresh cell holding the configured refresh token and no access
    /// token yet.
    pub fn new(refresh_token: String) -> (cell: Self)
        ensures
            cell.refresh_token == refresh_token,
            cell.access_token is None,
    {
        Credentials { refresh_token, access_token: None }
    }

    /// A snapshot read of the refresh token.
    pub fn current_refresh_token(&self) -> (token: String)
        ensures
            token == self.refresh_token,
    {
        self.refresh_token.clone()
    }

    /// A snapshot read of the access token; `None` before the first
    /// successful refresh.
    pub fn current_access_token(&self) -> (token: Option<String>)
        ensures
            token == self.access_token,
    {
        match &self.access_token {
            Some(t) => Some(t.clone()),
            None => None,
        }
    }

    /// Install the token pair returned by a successful refresh: the
    /// cell then holds exactly those two tokens.
    pub fn apply_refresh(&mut self, refresh_token: String, access_token: String)
        ensures
            final(self).refresh_token == refresh_token,
            final(self).access_token == Some(access_token),
    {
        self.refresh_token = refresh_token;
        self.access_token = Some(access_token);
    }
}

/// What a single refresh attempt came back with: either the consumed
/// response fields, or a failure described by plain facts about it.
pub enum AttemptOutcome {
    /// The attempt succeeded with these response fields.
    Success(RefreshInfo),
    /// The attempt failed.
    Failure {
        /// The failure was a connection error.
        connect_error: bool,
        /// The failure was a request timeout.
        timed_out: bool,
        /// The HTTP status, when the failure carried one.
        status: Option<u16>,
    },
}

/// The two facts about an attempt's outcome that the retry policy
/// reads: whether it succeeded, and whether a failure is retryable.
pub struct OutcomeShape {
    /// The attempt succeeded.
    pub success: bool,
    /// A failed attempt may be retried as it stands.
    pub retryable: bool,
}

impl AttemptOutcome {
    /// The outcome reduced to the facts the retry policy reads.
    pub open spec fn shape(self) -> OutcomeShape {
        match self {
            AttemptOutcome::Success(_) => OutcomeShape { success: true, retryable: false },
            AttemptOutcome::Failure { connect_error, timed_out, status } => OutcomeShape {
                success: false,
                retryable: spec_retryable_failure(connect_error, timed_out, status),
            },
        }
    }
}

/// What the session tells its driver to do after an attempt.
#[derive(Debug, Clone, Copy, PartialEq, Eq, Structural)]
pub enum RefreshAction {
    /// The refresh succeeded: install the tokens and stop.
    Done,
    /// Pause one second and attempt again with the session's token;
    /// `warn` says whether the failure deserves a log line (a silent
    /// bootstrap swap does not).
    Retry { warn: bool },
    /// Stop and surface the last error.
    GiveUp,
}

/// A failure is retried when it is a connection error, a request
/// timeout, or HTTP status 429.
pub open spec fn spec_retryable_failure(
    connect_error: bool,
    timed_out: bool,
    status: Option<u16>,
) -> bool {
    connect_error || timed_out || status == Some(429u16)
}

/// Decide whether a failed attempt is retried as it stands.
pub fn retryable_failure(connect_error: bool, timed_out: bool, status: Option<u16>) -> (retry:
    bool)
    ensures
        retry == spec_retryable_failure(connect_error, timed_out, status),
{
    connect_error || timed_out || status == Some(429u16)
}

/// The mathematical content of a [`RefreshSession`]: the token the
/// next attempt sends, the persisted bootstrap token as read, and the
/// attempts made so far.
pub struct SessionModel {
    /// Characters of the token the next attempt sends.
    pub token: Seq<char>,
    /// Characters of the persisted bootstrap token, if one was read.
    pub bootstrap: Option<Seq<char>>,
    /// Attempts made so far.
    pub attempts: int,
}

/// The session state and action after one attempt's outcome, as a
/// mathematical function. A success ends the session. A retryable
/// failure keeps the token and retries while attempts remain. A
/// non-retryable failure swaps in the bootstrap token (trimmed) and
/// retries silently when the session's token differs from the
/// bootstrap as read; any other non-retryable failure ends the
/// session.
pub open spec fn spec_step(m: SessionModel, o: OutcomeShape) -> (SessionModel, RefreshAction) {
    let attempts = m.attempts + 1;
    if o.success {
        (SessionModel { attempts, ..m }, RefreshAction::Done)
    } else if o.retryable {
        let next = SessionModel { attempts, ..m };
        if attempts < MAX_REFRESH_ATTEMPTS {
            (next, RefreshAction::Retry { warn: true })
        } else {
            (next, RefreshAction::GiveUp)
        }
    } else {
        match m.bootstrap {
            Some(b) => {
                if m.token != b {
                    let next = SessionModel { token: trim_of(b), attempts, ..m };
                    if attempts < MAX_REFRESH_ATTEMPTS {
                        (next, RefreshAction::Retry { warn: false })
                    } else {
                        (next, RefreshAction::GiveUp)
                    }
                } else {
                    (SessionModel { attempts, ..m }, RefreshAction::GiveUp)
                }
            },
            None => (SessionModel { attempts, ..m }, RefreshAction::GiveUp),
        }
    }
}

/// One refresh-with-retry session: the token the next attempt will
/// use, the persisted bootstrap token (read from disk, untrimmed), and
/// how many attempts were made so far.
pub struct RefreshSession {
    /// The refresh token the next attempt sends.
    pub token: String,
    /// The persisted token from the working directory, if one was
    /// read; kept as read, with any surrounding whitespace.
    pub bootstrap: Option<String>,
    /// Attempts made so far in this session.
    pub attempts: u8,
}

impl View for RefreshSession {
    type V = SessionModel;

    open spec fn view(&self) -> SessionModel {
        SessionModel {
            token: self.token@,
            bootstrap: match self.bootstrap {
                Some(b) => Some(b@),
                None => None,
            },
            attempts: self.attempts as int,
        }
    }
}

impl RefreshSession {
    /// A session that will first try `initial_token` (the cell's
    /// current refresh token), with `bootstrap` as the persisted
    /// fallback.
    pub fn new(initial_token: String, bootstrap: Option<String>) -> (session: Self)
        ensures
            session.token == initial_token,
            session.bootstrap == bootstrap,
            session.attempts == 0,
    {
        RefreshSession { token: initial_token, bootstrap, attempts: 0 }
    }

    /// The refresh token the next attempt must send.
    pub fn next_token(&self) -> (token: String)
        ensures
            token == self.token,
    {
        self.token.clone()
    }

    /// Record one attempt's outcome and decide what the driver does
    /// next.
    pub fn step(&mut self, outcome: &AttemptOutcome) -> (action: RefreshAction)
        requires
            old(self).attempts < MAX_REFRESH_ATTEMPTS,
        ensures
            (final(self)@, action) == spec_step(old(self)@, outcome.shape()),
            final(self).attempts == old(self).attempts + 1,
            final(self).bootstrap == old(self).bootstrap,
    {
        self.attempts = self.attempts + 1;
        match outcome {
            AttemptOutcome::Success(_) => RefreshAction::Done,
            AttemptOutcome::Failure { connect_error, timed_out, status } => {
                if retryable_failure(*connect_error, *timed_out, *status) {
                    if self.attempts < MAX_REFRESH_ATTEMPTS {
                        RefreshAction::Retry { warn: true }
                    } else {
                        RefreshAction::GiveUp
                    }
                } else {
                    let swap = match &self.bootstrap {
                        Some(b) => !string_eq(&self.token, b),
                        None => false,
                    };
                    if swap {
                        let b = match &self.bootstrap {
                            Some(b) => b.clone(),
                            None => String::new(),
                        };
                        self.token = trimmed(&b);
                        if self.attempts < MAX_REFRESH_ATTEMPTS {
                            RefreshAction::Retry { warn: false }
                        } else {
                            RefreshAction::GiveUp
                        }
                    } else {
                        RefreshAction::GiveUp
                    }
                }
            },
        }
    }
}

/// The action a driver is left with when it feeds a session the given
/// attempt outcomes one by one, pausing and reattempting for as long
/// as the session answers `Retry`.
pub open spec fn spec_session_result(m: SessionModel, outcomes: Seq<OutcomeShape>) -> RefreshAction
    decreases outcomes.len(),
{
    if outcomes.len() == 0 {
        RefreshAction::GiveUp
    } else {
        let stepped = spec_step(m, outcomes[0]);
        if stepped.1 is Retry {
            spec_session_result(stepped.0, outcomes.skip(1))
        } else {
            stepped.1
        }
    }
}

/// A session whose attempts all fail retryably except possibly the
/// last ends exactly with that last outcome: a final success is
/// reported as success, a final failure surfaces the last error. In
/// particular, nine failures with status 429 followed by a success
/// are a success, and a tenth failure gives up.
pub proof fn lemma_last_attempt_decides(m: SessionModel, outcomes: Seq<OutcomeShape>)
    requires
        m.attempts >= 0,
        m.attempts + outcomes.len() == MAX_REFRESH_ATTEMPTS,
        outcomes.len() >= 1,
        forall|i: int|
            0 <= i < outcomes.len() - 1 ==> !(#[trigger] outcomes[i]).success
                && outcomes[i].retryable,
    ensures
        outcomes.last().success ==> spec_session_result(m, outcomes) == RefreshAction::Done,
        !outcomes.last().success ==> spec_session_result(m, outcomes) == RefreshAction::GiveUp,
    decreases outcomes.len(),
{
    let stepped = spec_step(m, outcomes[0]);
    if outcomes.len() == 1 {
        assert(outcomes[0] == outcomes.last());
    } else {
        assert(!outcomes[0].success && outcomes[0].retryable);
        assert(stepped.1 == (RefreshAction::Retry { warn: true }));
        lemma_last_attempt_decides(stepped.0, outcomes.skip(1));
        assert(outcomes.skip(1).last() == outcomes.last());
    }
}

/// Whether two strings hold the same characters.
pub fn string_eq(a: &String, b: &String) -> (eq: bool)
    ensures
        eq == (a@ == b@),
{
    *a == *b
}

/// The characters of `s` with surrounding whitespace removed.
pub uninterp spec fn trim_of(s: Seq<char>) -> Seq<char>;

/// Relies on `str::trim`: the result is the argument with leading and
/// trailing whitespace removed, a function of the characters alone.
#[verifier::external_body]
pub fn trimmed(s: &String) -> (t: String)
    ensures
        t@ == trim_of(s@),
{
    s.trim().to_owned()
}

/// The seconds a background worker sleeps after observing
/// `expires_in`: the margin is subtracted so the next refresh lands
/// early.
pub fn next_refresh_delay(expires_in: u64) -> (delay: u64)
    requires
        expires_in >= REFRESH_MARGIN_SECS,
    ensures
        delay == expires_in - REFRESH_MARGIN_SECS,
{
    expires_in - REFRESH_MARGIN_SECS
}

/// Whether the drive id delivered by the first refresh lets the mount
/// proceed: an empty id is fatal.
pub fn bootstrap_ready(drive_id: &String) -> (ready: bool)
    ensures
        ready == (drive_id@.len() != 0),
{
    !drive_id.as_str().is_empty()
}

} // verus!

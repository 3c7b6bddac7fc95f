//! Best-effort delivery: a bounded row of connection attempts for each message, and a
//! quiet period after a row that failed. The connections themselves are made by the
//! caller; this module decides when one is made and keeps the count.

use crate::config::TcpConfig;
use crate::text::{decimal, decimal_string};
use vstd::prelude::*;

verus! {

/// The pause between two attempts for one message, in milliseconds.
pub const RETRY_PAUSE_MS: u64 = 100;

/// Why a message was not delivered.
#[derive(Debug, Clone, Copy, PartialEq, Eq, Structural)]
pub enum DeliveryError {
    /// An earlier message used up its attempts less than a cooldown ago: no connection
    /// was attempted for this one.
    CoolingDown,
    /// Every attempt that the configuration allows has failed.
    Exhausted,
}

/// What is to happen next for the message being sent.
#[derive(Debug, Clone, Copy, PartialEq, Eq, Structural)]
pub enum SendStep {
    /// Pause for `pause_ms` milliseconds, then open a fresh connection, write the whole
    /// message and close; report the outcome under the number `attempt`.
    Attempt { attempt: u32, pause_ms: u64 },
    /// The message was written: nothing is left to do.
    Delivered,
    /// The message is dropped.
    Failed(DeliveryError),
}

/// The mathematical content of a [`TcpClient`].
pub struct ClientView {
    pub host: Seq<char>,
    pub port: nat,
    pub cooldown_ms: nat,
    pub max_retries: nat,
    /// Failed attempts in a row.
    pub failures: nat,
    /// When the last attempt ended.
    pub last_attempt_ms: nat,
}

/// The time since the last attempt; none if the clock reads earlier than it did then.
pub open spec fn elapsed_ms(c: ClientView, now_ms: nat) -> nat {
    if now_ms >= c.last_attempt_ms {
        (now_ms - c.last_attempt_ms) as nat
    } else {
        0
    }
}

/// Whether the client is inside the quiet period that follows failed attempts.
pub open spec fn cooling_down(c: ClientView, now_ms: nat) -> bool {
    c.failures > 0 && elapsed_ms(c, now_ms) < c.cooldown_ms
}

/// The client with its count of failures cleared.
pub open spec fn cleared(c: ClientView) -> ClientView {
    ClientView { failures: 0, ..c }
}

/// The start of a send: inside the quiet period the message fails at once and nothing
/// changes; otherwise the count is cleared and the first attempt is due, unless the
/// configuration allows none.
pub open spec fn begun(c: ClientView, now_ms: nat) -> (ClientView, SendStep) {
    if cooling_down(c, now_ms) {
        (c, SendStep::Failed(DeliveryError::CoolingDown))
    } else if c.max_retries == 0 {
        (cleared(c), SendStep::Failed(DeliveryError::Exhausted))
    } else {
        (cleared(c), SendStep::Attempt { attempt: 0, pause_ms: 0 })
    }
}

/// The count of failures after attempt number `attempt` has failed.
pub open spec fn failures_after(attempt: nat) -> nat {
    if attempt + 1 <= u32::MAX {
        attempt + 1
    } else {
        u32::MAX as nat
    }
}

/// The outcome of attempt number `attempt`, counted from 0: a success clears the count;
/// a failure sets it to the attempts made, and either another attempt is due after the
/// pause or the attempts are used up. Either way the time is recorded.
pub open spec fn attempted(c: ClientView, attempt: nat, delivered: bool, now_ms: nat) -> (
    ClientView,
    SendStep,
) {
    if delivered {
        (ClientView { failures: 0, last_attempt_ms: now_ms, ..c }, SendStep::Delivered)
    } else {
        let failed = ClientView { failures: failures_after(attempt), last_attempt_ms: now_ms, ..c };
        if attempt + 1 < c.max_retries {
            (failed, SendStep::Attempt { attempt: (attempt + 1) as u32, pause_ms: RETRY_PAUSE_MS })
        } else {
            (failed, SendStep::Failed(DeliveryError::Exhausted))
        }
    }
}

/// The address to connect to: the host, a colon and the port in decimal.
pub open spec fn address_of(c: ClientView) -> Seq<char> {
    c.host + ":"@ + decimal(c.port)
}

/// The sender's side of a delivery: the configuration, the failed attempts in a row and
/// the time of the last attempt.
pub struct TcpClient {
    config: TcpConfig,
    connect_attempts: u32,
    last_attempt_ms: u64,
}

impl TcpClient {
    /// What the client holds.
    pub closed spec fn view(&self) -> ClientView {
        ClientView {
            host: self.config.host@,
            port: self.config.port as nat,
            cooldown_ms: self.config.retry_cooldown_ms as nat,
            max_retries: self.config.max_retries as nat,
            failures: self.connect_attempts as nat,
            last_attempt_ms: self.last_attempt_ms as nat,
        }
    }

    /// The content of a client that was just made for `config`: no failure is counted.
    pub open spec fn new_view(config: TcpConfig) -> ClientView {
        ClientView {
            host: config.host@,
            port: config.port as nat,
            cooldown_ms: config.retry_cooldown_ms as nat,
            max_retries: config.max_retries as nat,
            failures: 0,
            last_attempt_ms: 0,
        }
    }

    /// A client that has made no attempt yet.
    pub fn new(config: TcpConfig) -> (client: Self)
        ensures
            client@ == Self::new_view(config),
    {
        TcpClient { config, connect_attempts: 0, last_attempt_ms: 0 }
    }

    /// The failed attempts in a row.
    pub fn failures(&self) -> (n: u32)
        ensures
            n as nat == self@.failures,
    {
        self.connect_attempts
    }

    /// The attempts allowed for one message.
    pub fn max_retries(&self) -> (n: u32)
        ensures
            n as nat == self@.max_retries,
    {
        self.config.max_retries
    }

    /// The address to connect to.
    pub fn address(&self) -> (address: String)
        ensures
            address@ == address_of(self@),
    {
        let mut address = self.config.host.clone();
        address.append(":");
        let port = decimal_string(self.config.port as u32);
        address.append(port.as_str());
        address
    }

    /// Whether a send that starts at `now_ms` fails at once.
    pub fn in_cooldown(&self, now_ms: u64) -> (cooling: bool)
        ensures
            cooling == cooling_down(self@, now_ms as nat),
    {
        let elapsed: u64 = if now_ms >= self.last_attempt_ms {
            now_ms - self.last_attempt_ms
        } else {
            0
        };
        self.connect_attempts > 0 && elapsed < self.config.retry_cooldown_ms
    }

    /// Starts the send of one message at the time `now_ms`: see [`begun`].
    pub fn begin_send(&mut self, now_ms: u64) -> (step: SendStep)
        ensures
            (final(self)@, step) == begun(old(self)@, now_ms as nat),
    {
        if self.in_cooldown(now_ms) {
            return SendStep::Failed(DeliveryError::CoolingDown);
        }
        self.connect_attempts = 0;
        if self.config.max_retries == 0 {
            SendStep::Failed(DeliveryError::Exhausted)
        } else {
            SendStep::Attempt { attempt: 0, pause_ms: 0 }
        }
    }

    /// Takes the outcome of attempt number `attempt`, which ended at `now_ms`: see
    /// [`attempted`].
    pub fn record_attempt(&mut self, attempt: u32, delivered: bool, now_ms: u64) -> (step: SendStep)
        ensures
            (final(self)@, step) == attempted(old(self)@, attempt as nat, delivered, now_ms as nat),
    {
        self.last_attempt_ms = now_ms;
        if delivered {
            self.connect_attempts = 0;
            return SendStep::Delivered;
        }
        self.connect_attempts = attempt.saturating_add(1);
        if attempt < u32::MAX && attempt + 1 < self.config.max_retries {
            SendStep::Attempt { attempt: attempt + 1, pause_ms: RETRY_PAUSE_MS }
        } else {
            SendStep::Failed(DeliveryError::Exhausted)
        }
    }
}

/// How one attempt went: whether the message was written, and when the attempt ended.
pub struct Outcome {
    pub delivered: bool,
    pub at_ms: nat,
}

/// How a send went.
pub struct SendRun {
    /// The client afterwards.
    pub client: ClientView,
    /// The step it ended on. It is an attempt only where the outcomes ran out.
    pub last: SendStep,
    /// The connections attempted.
    pub attempts: nat,
}

/// The attempts of a send from attempt number `attempt` on, their outcomes taken in order
/// from `outcomes`.
pub open spec fn attempts_run(c: ClientView, attempt: nat, outcomes: Seq<Outcome>) -> SendRun
    decreases outcomes.len(),
{
    if outcomes.len() == 0 {
        SendRun { client: c, last: SendStep::Attempt { attempt: attempt as u32, pause_ms: 0 }, attempts: 0 }
    } else {
        let (next, step) = attempted(c, attempt, outcomes[0].delivered, outcomes[0].at_ms);
        match step {
            SendStep::Attempt { attempt: following, .. } => {
                let rest = attempts_run(next, following as nat, outcomes.drop_first());
                SendRun { client: rest.client, last: rest.last, attempts: rest.attempts + 1 }
            },
            _ => SendRun { client: next, last: step, attempts: 1 },
        }
    }
}

/// A whole send that starts at `now_ms`, the outcomes of its attempts taken in order
/// from `outcomes`.
pub open spec fn send_run(c: ClientView, now_ms: nat, outcomes: Seq<Outcome>) -> SendRun {
    let (next, step) = begun(c, now_ms);
    match step {
        SendStep::Attempt { .. } => attempts_run(next, 0, outcomes),
        _ => SendRun { client: next, last: step, attempts: 0 },
    }
}

/// Whether the first `n` outcomes are failures.
pub open spec fn all_failed(outcomes: Seq<Outcome>, n: nat) -> bool {
    n <= outcomes.len() && forall|i: int| 0 <= i < n ==> !(#[trigger] outcomes[i]).delivered
}

/// From attempt number `attempt` on, attempts that all fail are made until the
/// configured number is reached, and the count of failures is then that number.
pub proof fn lemma_failures_exhaust(c: ClientView, attempt: nat, outcomes: Seq<Outcome>)
    requires
        attempt < c.max_retries <= u32::MAX,
        all_failed(outcomes, (c.max_retries - attempt) as nat),
    ensures
        attempts_run(c, attempt, outcomes).attempts == c.max_retries - attempt,
        attempts_run(c, attempt, outcomes).last == SendStep::Failed(DeliveryError::Exhausted),
        attempts_run(c, attempt, outcomes).client == (ClientView {
            failures: c.max_retries,
            last_attempt_ms: outcomes[c.max_retries - attempt - 1].at_ms,
            ..c
        }),
    decreases c.max_retries - attempt,
{
    let (next, step) = attempted(c, attempt, outcomes[0].delivered, outcomes[0].at_ms);
    assert(!outcomes[0].delivered);
    if attempt + 1 < c.max_retries {
        let rest = outcomes.drop_first();
        assert forall|i: int| 0 <= i < c.max_retries - attempt - 1 implies !(#[trigger] rest[i]).delivered by {
            assert(rest[i] == outcomes[i + 1]);
        }
        lemma_failures_exhaust(next, attempt + 1, rest);
        assert(rest[c.max_retries - attempt - 2] == outcomes[c.max_retries - attempt - 1]);
    }
}

/// Where the configuration allows no attempt, a send outside the quiet period fails
/// without a connection.
pub proof fn lemma_no_attempt_allowed(c: ClientView, now_ms: nat, outcomes: Seq<Outcome>)
    requires
        !cooling_down(c, now_ms),
        c.max_retries == 0,
    ensures
        send_run(c, now_ms, outcomes).attempts == 0,
        send_run(c, now_ms, outcomes).last == SendStep::Failed(DeliveryError::Exhausted),
        send_run(c, now_ms, outcomes).client == cleared(c),
{
}

/// The pause before an attempt is fixed: none before the first attempt of a send, and
/// the retry pause before every other.
pub proof fn lemma_pause_is_fixed(c: ClientView, attempt: nat, delivered: bool, now_ms: nat)
    requires
        c.max_retries <= u32::MAX,
    ensures
        begun(c, now_ms).1 matches SendStep::Attempt { attempt: first, pause_ms } ==> first == 0
            && pause_ms == 0,
        attempted(c, attempt, delivered, now_ms).1 matches SendStep::Attempt {
            attempt: next,
            pause_ms,
        } ==> next == attempt + 1 && pause_ms == RETRY_PAUSE_MS,
{
}

/// Inside the quiet period a send fails at once: no connection is attempted and the
/// client is left as it was.
pub proof fn lemma_cooldown_fails_at_once(c: ClientView, now_ms: nat, outcomes: Seq<Outcome>)
    requires
        cooling_down(c, now_ms),
    ensures
        send_run(c, now_ms, outcomes).attempts == 0,
        send_run(c, now_ms, outcomes).last == SendStep::Failed(DeliveryError::CoolingDown),
        send_run(c, now_ms, outcomes).client == c,
{
}

/// Outside the quiet period a send whose attempts all fail makes exactly the configured
/// number of attempts, and leaves the client with that many failures and the time of the
/// last attempt.
pub proof fn lemma_full_retry_sequence(c: ClientView, now_ms: nat, outcomes: Seq<Outcome>)
    requires
        !cooling_down(c, now_ms),
        0 < c.max_retries <= u32::MAX,
        all_failed(outcomes, c.max_retries),
    ensures
        send_run(c, now_ms, outcomes).attempts == c.max_retries,
        send_run(c, now_ms, outcomes).last == SendStep::Failed(DeliveryError::Exhausted),
        send_run(c, now_ms, outcomes).client == (ClientView {
            failures: c.max_retries,
            last_attempt_ms: outcomes[c.max_retries - 1].at_ms,
            ..c
        }),
{
    lemma_failures_exhaust(cleared(c), 0, outcomes);
}

/// After a send whose attempts all failed, a send that starts after the last attempt, and
/// less than the cooldown after it, fails at once.
pub proof fn lemma_exhausted_send_starts_cooldown(
    c: ClientView,
    now_ms: nat,
    outcomes: Seq<Outcome>,
    later_ms: nat,
)
    requires
        !cooling_down(c, now_ms),
        0 < c.max_retries <= u32::MAX,
        all_failed(outcomes, c.max_retries),
        outcomes[c.max_retries - 1].at_ms <= later_ms < outcomes[c.max_retries - 1].at_ms
            + c.cooldown_ms,
    ensures
        cooling_down(send_run(c, now_ms, outcomes).client, later_ms),
{
    lemma_full_retry_sequence(c, now_ms, outcomes);
}

/// The first success ends a send: `k` failures and then a success make `k + 1` attempts,
/// deliver the message and clear the count.
pub proof fn lemma_success_ends_send(c: ClientView, attempt: nat, outcomes: Seq<Outcome>, k: nat)
    requires
        attempt + k < c.max_retries <= u32::MAX,
        k < outcomes.len(),
        all_failed(outcomes, k),
        outcomes[k as int].delivered,
    ensures
        attempts_run(c, attempt, outcomes).attempts == k + 1,
        attempts_run(c, attempt, outcomes).last == SendStep::Delivered,
        attempts_run(c, attempt, outcomes).client == (ClientView {
            failures: 0,
            last_attempt_ms: outcomes[k as int].at_ms,
            ..c
        }),
    decreases k,
{
    if k > 0 {
        let (next, step) = attempted(c, attempt, outcomes[0].delivered, outcomes[0].at_ms);
        assert(!outcomes[0].delivered);
        let rest = outcomes.drop_first();
        assert forall|i: int| 0 <= i < k - 1 implies !(#[trigger] rest[i]).delivered by {
            assert(rest[i] == outcomes[i + 1]);
        }
        assert(rest[k - 1] == outcomes[k as int]);
        lemma_success_ends_send(next, attempt + 1, rest, (k - 1) as nat);
    }
}

} // verus!

use vstd::prelude::*;

verus! {

/// The wait before the first reconnection attempt.
pub const FIRST_WAIT_MS: u64 = 1000;

/// The longest wait between reconnection attempts.
pub const MAX_WAIT_MS: u64 = 60000;

/// How long one connection attempt may take.
pub const ATTEMPT_TIMEOUT_MS: u64 = 10000;

/// Outbound messages older than this when dequeued are dropped.
pub const STALE_AFTER_MS: u64 = 300000;

/// Two to the power `k`.
pub open spec fn pow2(k: nat) -> nat
    decreases k,
{
    if k == 0 { 1 } else { 2 * pow2((k - 1) as nat) }
}

/// The wait, in milliseconds, before reconnection attempt `k` (counted from
/// one): one second, doubled after each failure, at most a minute.
pub open spec fn backoff_spec(k: nat) -> nat {
    let w = (FIRST_WAIT_MS * pow2((k - 1) as nat)) as nat;
    if w < MAX_WAIT_MS { w } else { MAX_WAIT_MS as nat }
}

proof fn lemma_pow2_monotone(a: nat, b: nat)
    requires
        a <= b,
    ensures
        pow2(a) <= pow2(b),
    decreases b,
{
    if a < b {
        lemma_pow2_monotone(a, (b - 1) as nat);
    }
}

/// The wait before reconnection attempts never shrinks from one attempt to
/// a later one, and never exceeds the cap.
pub proof fn lemma_backoff_monotone(j: nat, k: nat)
    requires
        1 <= j <= k,
    ensures
        backoff_spec(j) <= backoff_spec(k),
        backoff_spec(k) <= MAX_WAIT_MS,
{
    lemma_pow2_monotone((j - 1) as nat, (k - 1) as nat);
    assert(FIRST_WAIT_MS * pow2((j - 1) as nat) <= FIRST_WAIT_MS * pow2((k - 1) as nat)) by (nonlinear_arith)
        requires
            pow2((j - 1) as nat) <= pow2((k - 1) as nat),
    ;
}

/// The wait, in milliseconds, before reconnection attempt `attempt`.
pub fn reconnect_delay_ms(attempt: u64) -> (r: u64)
    requires
        attempt >= 1,
    ensures
        r == backoff_spec(attempt as nat),
{
    let mut wait: u64 = FIRST_WAIT_MS;
    let mut i: u64 = 1;
    while i < attempt && wait < MAX_WAIT_MS
        invariant
            1 <= i <= attempt,
            wait == backoff_spec(i as nat),
            wait < MAX_WAIT_MS ==> wait == FIRST_WAIT_MS * pow2((i - 1) as nat),
        decreases attempt - i,
    {
        assert(pow2(i as nat) == 2 * pow2((i - 1) as nat));
        assert(FIRST_WAIT_MS * pow2(i as nat) == 2 * (FIRST_WAIT_MS * pow2((i - 1) as nat))) by (nonlinear_arith)
            requires
                pow2(i as nat) == 2 * pow2((i - 1) as nat),
        ;
        wait = if wait * 2 < MAX_WAIT_MS { wait * 2 } else { MAX_WAIT_MS };
        i = i + 1;
    }
    if i < attempt {
        proof {
            lemma_backoff_monotone(i as nat, attempt as nat);
        }
    }
    wait
}

/// The age of a message enqueued at `enqueued` when dequeued at `now`; a
/// clock that went back counts as no age.
pub open spec fn age(enqueued: u64, now: u64) -> nat {
    if now >= enqueued { (now - enqueued) as nat } else { 0 }
}

/// What becomes of a dequeued outbound message.
#[derive(PartialEq, Eq, Structural, Clone, Copy, Debug)]
pub enum Dispatch {
    /// Too old: dropped, never sent.
    Drop,
    /// Recorded only, in dry-run mode.
    LogOnly,
    /// Sent to the broker.
    Transmit,
}

/// The fate of a message of age `age_ms` under the dry-run flag.
pub open spec fn dispatch_spec(age_ms: nat, dry_run: bool) -> Dispatch {
    if age_ms > STALE_AFTER_MS {
        Dispatch::Drop
    } else if dry_run {
        Dispatch::LogOnly
    } else {
        Dispatch::Transmit
    }
}

/// A publish request waiting in the outbound queue.
pub struct OutgoingMessage {
    pub topic: String,
    pub payload: String,
    pub retain: bool,
    pub enqueued_at_ms: u64,
}

impl OutgoingMessage {
    /// A message for `topic`, enqueued at `now`.
    pub fn new(topic: String, payload: String, retain: bool, now: u64) -> (r: OutgoingMessage)
        ensures
            r.topic == topic,
            r.payload == payload,
            r.retain == retain,
            r.enqueued_at_ms == now,
    {
        OutgoingMessage { topic, payload, retain, enqueued_at_ms: now }
    }

    /// What becomes of this message if dequeued at `now`.
    pub fn dispatch(&self, now: u64, dry_run: bool) -> (r: Dispatch)
        ensures
            r == dispatch_spec(age(self.enqueued_at_ms, now), dry_run),
    {
        let age_ms = if now >= self.enqueued_at_ms { now - self.enqueued_at_ms } else { 0 };
        if age_ms > STALE_AFTER_MS {
            Dispatch::Drop
        } else if dry_run {
            Dispatch::LogOnly
        } else {
            Dispatch::Transmit
        }
    }
}

/// A message dequeued at a given time is sent (or only recorded, in dry-run
/// mode) exactly when it has waited no longer than the staleness limit.
pub proof fn lemma_stale_never_sent(enqueued: u64, now: u64, dry_run: bool)
    ensures
        age(enqueued, now) > STALE_AFTER_MS <==> dispatch_spec(age(enqueued, now), dry_run) == Dispatch::Drop,
        age(enqueued, now) <= STALE_AFTER_MS ==> dispatch_spec(age(enqueued, now), dry_run) == (if dry_run {
            Dispatch::LogOnly
        } else {
            Dispatch::Transmit
        }),
{
}

/// The bounded first-in first-out queue of outbound messages.
pub struct OutboundQueue {
    pub capacity: usize,
    pub messages: Vec<OutgoingMessage>,
    pub dry_run: bool,
}

impl OutboundQueue {
    /// The queue holds no more than its capacity.
    pub open spec fn wf(&self) -> bool {
        self.messages@.len() <= self.capacity
    }

    /// An empty queue of `capacity` places; `dry_run` is fixed for its
    /// lifetime.
    pub fn new(capacity: usize, dry_run: bool) -> (r: OutboundQueue)
        ensures
            r.wf(),
            r.capacity == capacity,
            r.dry_run == dry_run,
            r.messages@.len() == 0,
    {
        OutboundQueue { capacity, messages: Vec::new(), dry_run }
    }

    /// Places `msg` at the back; a full queue hands it back instead, for the
    /// caller to offer again once there is room.
    pub fn enqueue(&mut self, msg: OutgoingMessage) -> (r: Result<(), OutgoingMessage>)
        requires
            old(self).wf(),
        ensures
            final(self).wf(),
            final(self).capacity == old(self).capacity,
            final(self).dry_run == old(self).dry_run,
            old(self).messages@.len() < old(self).capacity ==> r is Ok && final(self).messages@
                == old(self).messages@.push(msg),
            old(self).messages@.len() >= old(self).capacity ==> r == Err::<(), OutgoingMessage>(msg)
                && final(self).messages@ == old(self).messages@,
    {
        if self.messages.len() < self.capacity {
            self.messages.push(msg);
            Ok(())
        } else {
            Err(msg)
        }
    }

    /// Takes the oldest message, with what becomes of it at time `now`.
    pub fn dequeue(&mut self, now: u64) -> (r: Option<(OutgoingMessage, Dispatch)>)
        requires
            old(self).wf(),
        ensures
            final(self).wf(),
            final(self).capacity == old(self).capacity,
            final(self).dry_run == old(self).dry_run,
            old(self).messages@.len() == 0 ==> r is None && final(self).messages@ == old(self).messages@,
            old(self).messages@.len() > 0 ==> r == Some(
                (
                    old(self).messages@[0],
                    dispatch_spec(age(old(self).messages@[0].enqueued_at_ms, now), old(self).dry_run),
                ),
            ) && final(self).messages@ == old(self).messages@.skip(1),
    {
        if self.messages.len() == 0 {
            None
        } else {
            let msg = self.messages.remove(0);
            let d = msg.dispatch(now, self.dry_run);
            assert(self.messages@ =~= old(self).messages@.skip(1));
            Some((msg, d))
        }
    }
}

/// The state of the connection to the broker.
#[derive(PartialEq, Eq, Structural, Clone, Copy, Debug)]
pub enum ConnectionState {
    Disconnected,
    /// Attempt `attempt` is under way; attempt zero is the first connection
    /// at startup.
    Connecting { attempt: u64 },
    Connected,
}

/// What the transport reports to the connection logic.
#[derive(PartialEq, Eq, Structural, Clone, Copy, Debug)]
pub enum TransportEvent {
    Start,
    AttemptSucceeded,
    AttemptFailed,
    ConnectionLost,
}

/// What the connection logic asks the transport to do next.
#[derive(PartialEq, Eq, Structural, Clone, Copy, Debug)]
pub enum TransportAction {
    /// Connect at once, for the first time.
    Connect { timeout_ms: u64 },
    /// Wait, then try to reconnect.
    Reconnect { wait_ms: u64, timeout_ms: u64 },
    /// Subscribe to every registered topic in one batch.
    SubscribeAll,
    /// The first connection failed: give up.
    Fail,
    Nothing,
}

/// The next attempt number, held at its largest value.
pub open spec fn next_attempt(k: u64) -> u64 {
    if k < u64::MAX { (k + 1) as u64 } else { k }
}

/// The connection logic: the state and action that follow `e` in `s`.
pub open spec fn transition(s: ConnectionState, e: TransportEvent) -> (ConnectionState, TransportAction) {
    match (s, e) {
        (ConnectionState::Disconnected, TransportEvent::Start) => (
            ConnectionState::Connecting { attempt: 0 },
            TransportAction::Connect { timeout_ms: ATTEMPT_TIMEOUT_MS },
        ),
        (ConnectionState::Connecting { .. }, TransportEvent::AttemptSucceeded) => (
            ConnectionState::Connected,
            TransportAction::SubscribeAll,
        ),
        (ConnectionState::Connecting { attempt }, TransportEvent::AttemptFailed) => if attempt == 0 {
            (ConnectionState::Disconnected, TransportAction::Fail)
        } else {
            (
                ConnectionState::Connecting { attempt: next_attempt(attempt) },
                TransportAction::Reconnect {
                    wait_ms: backoff_spec(next_attempt(attempt) as nat) as u64,
                    timeout_ms: ATTEMPT_TIMEOUT_MS,
                },
            )
        },
        (ConnectionState::Connected, TransportEvent::ConnectionLost) => (
            ConnectionState::Connecting { attempt: 1 },
            TransportAction::Reconnect { wait_ms: FIRST_WAIT_MS, timeout_ms: ATTEMPT_TIMEOUT_MS },
        ),
        _ => (s, TransportAction::Nothing),
    }
}

impl ConnectionState {
    /// Applies `e`: moves to the next state and gives the action to take.
    pub fn step(&mut self, e: TransportEvent) -> (r: TransportAction)
        ensures
            (*final(self), r) == transition(*old(self), e),
    {
        match (*self, e) {
            (ConnectionState::Disconnected, TransportEvent::Start) => {
                *self = ConnectionState::Connecting { attempt: 0 };
                TransportAction::Connect { timeout_ms: ATTEMPT_TIMEOUT_MS }
            },
            (ConnectionState::Connecting { .. }, TransportEvent::AttemptSucceeded) => {
                *self = ConnectionState::Connected;
                TransportAction::SubscribeAll
            },
            (ConnectionState::Connecting { attempt }, TransportEvent::AttemptFailed) => {
                if attempt == 0 {
                    *self = ConnectionState::Disconnected;
                    TransportAction::Fail
                } else {
                    let next = if attempt < u64::MAX { attempt + 1 } else { attempt };
                    *self = ConnectionState::Connecting { attempt: next };
                    TransportAction::Reconnect {
                        wait_ms: reconnect_delay_ms(next),
                        timeout_ms: ATTEMPT_TIMEOUT_MS,
                    }
                }
            },
            (ConnectionState::Connected, TransportEvent::ConnectionLost) => {
                *self = ConnectionState::Connecting { attempt: 1 };
                proof {
                    assert(pow2(0) == 1);
                }
                TransportAction::Reconnect { wait_ms: FIRST_WAIT_MS, timeout_ms: ATTEMPT_TIMEOUT_MS }
            },
            _ => TransportAction::Nothing,
        }
    }
}

} // verus!

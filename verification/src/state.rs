//! Deterministic connection state machine.
//!
//! ```text
//! DISCONNECTED ──connect()──▶ CONNECTING ──success──▶ AUTHENTICATING
//!      ▲                          │                        │
//!      │                       failure                  success/skip
//!      │                          │                        ▼
//!      │                          ▼                   SUBSCRIBING
//!      │                      DEGRADED                     │
//!      │                          │                     success
//!      │                       retry                       ▼
//!      │                          │                   SUBSCRIBED ◀──resync_complete──┐
//!      │                          ▼                        │                         │
//!      └────────close()────── CLOSED ◀──max_retries────────┴───gap_detected──▶ RESYNCING
//! ```

use crate::clock::{duration_from_millis, duration_from_secs, duration_nanos, instant_now};
use std::time::Duration;
use std::time::Instant;
use vstd::prelude::*;

verus! {

broadcast use vstd::string::group_string_axioms;

/// Most transitions kept in the history of a state machine.
pub const MAX_HISTORY: usize = 100;

/// Connection state machine states.
#[derive(Debug, Clone, Copy, PartialEq, Eq, Hash)]
pub enum ConnectionState {
    /// Initial state: not connected.
    Disconnected,
    /// Establishing the WebSocket connection.
    Connecting,
    /// Authenticating with API credentials.
    Authenticating,
    /// Sending subscription requests.
    Subscribing,
    /// Fully connected and receiving data.
    Subscribed,
    /// Resyncing after a sequence gap.
    Resyncing,
    /// Connection degraded, recovery pending.
    Degraded {
        /// Reason for degradation
        reason: DegradedReason,
        /// Number of retry attempts
        retry_count: u32,
        /// When degradation started
        since: Instant,
    },
    /// Connection closed.
    Closed {
        /// Reason for closure
        reason: ClosedReason,
    },
}

impl Default for ConnectionState {
    fn default() -> (s: Self)
        ensures
            s is Disconnected,
    {
        ConnectionState::Disconnected
    }
}

/// Reasons for entering the DEGRADED state.
#[derive(Debug, Clone, Copy, PartialEq, Eq, Hash)]
pub enum DegradedReason {
    /// Network connection failed
    ConnectionFailed,
    /// Connection timeout
    Timeout,
    /// Authentication failed
    AuthenticationFailed,
    /// Subscription failed
    SubscriptionFailed,
    /// Server closed connection
    ServerDisconnect,
    /// Sequence gap detected
    SequenceGap { expected: u64, received: u64 },
    /// Checksum mismatch in order book
    ChecksumMismatch,
    /// Heartbeat timeout
    HeartbeatTimeout,
}

/// Reasons for entering the CLOSED state.
#[derive(Debug, Clone, Copy, PartialEq, Eq, Hash)]
pub enum ClosedReason {
    /// User requested close
    UserRequested,
    /// Maximum retry attempts exceeded
    MaxRetriesExceeded,
    /// Unrecoverable authentication error
    AuthenticationError,
    /// Server rejected connection permanently
    ServerRejected,
}

/// What triggered a state transition.
#[derive(Debug, PartialEq, Eq)]
pub enum TransitionTrigger {
    /// User called connect()
    UserConnect,
    /// User called close()
    UserClose,
    /// WebSocket connection established
    ConnectionEstablished,
    /// WebSocket connection failed
    ConnectionFailed(String),
    /// Authentication succeeded
    AuthSuccess,
    /// Authentication failed
    AuthFailed(String),
    /// All subscriptions confirmed
    SubscriptionsConfirmed,
    /// Subscription failed
    SubscriptionFailed(String),
    /// Server disconnected
    ServerDisconnect(u16, String),
    /// Heartbeat timeout
    HeartbeatTimeout,
    /// Sequence gap detected
    SequenceGap { expected: u64, received: u64 },
    /// Resync completed
    ResyncComplete,
    /// Retry attempt
    RetryAttempt(u32),
    /// Max retries exceeded
    MaxRetriesExceeded,
}

impl Clone for TransitionTrigger {
    fn clone(&self) -> (c: Self)
        ensures
            c == *self,
    {
        match self {
            TransitionTrigger::UserConnect => TransitionTrigger::UserConnect,
            TransitionTrigger::UserClose => TransitionTrigger::UserClose,
            TransitionTrigger::ConnectionEstablished => TransitionTrigger::ConnectionEstablished,
            TransitionTrigger::ConnectionFailed(e) => TransitionTrigger::ConnectionFailed(e.clone()),
            TransitionTrigger::AuthSuccess => TransitionTrigger::AuthSuccess,
            TransitionTrigger::AuthFailed(e) => TransitionTrigger::AuthFailed(e.clone()),
            TransitionTrigger::SubscriptionsConfirmed => TransitionTrigger::SubscriptionsConfirmed,
            TransitionTrigger::SubscriptionFailed(e) => TransitionTrigger::SubscriptionFailed(
                e.clone(),
            ),
            TransitionTrigger::ServerDisconnect(code, r) => TransitionTrigger::ServerDisconnect(
                *code,
                r.clone(),
            ),
            TransitionTrigger::HeartbeatTimeout => TransitionTrigger::HeartbeatTimeout,
            TransitionTrigger::SequenceGap { expected, received } => TransitionTrigger::SequenceGap {
                expected: *expected,
                received: *received,
            },
            TransitionTrigger::ResyncComplete => TransitionTrigger::ResyncComplete,
            TransitionTrigger::RetryAttempt(n) => TransitionTrigger::RetryAttempt(*n),
            TransitionTrigger::MaxRetriesExceeded => TransitionTrigger::MaxRetriesExceeded,
        }
    }
}

/// State transition event, emitted whenever the machine changes state.
#[derive(Debug)]
pub struct StateTransition {
    /// Previous state
    pub from: ConnectionState,
    /// New state
    pub to: ConnectionState,
    /// What triggered the transition
    pub trigger: TransitionTrigger,
    /// When the transition occurred
    pub timestamp: Instant,
}

impl Clone for StateTransition {
    fn clone(&self) -> (c: Self)
        ensures
            c == *self,
    {
        StateTransition {
            from: self.from,
            to: self.to,
            trigger: self.trigger.clone(),
            timestamp: self.timestamp,
        }
    }
}

impl StateTransition {
    /// Create a new state transition, stamped with the current time.
    pub fn new(from: ConnectionState, to: ConnectionState, trigger: TransitionTrigger) -> (t: Self)
        ensures
            t.from == from,
            t.to == to,
            t.trigger == trigger,
    {
        StateTransition { from, to, trigger, timestamp: instant_now() }
    }
}

/// Configuration for the state machine.
///
/// The backoff multiplier of the retry delay is a float; the delay itself is
/// computed outside the verified core from `retry_count()`.
#[derive(Debug, Clone, Copy)]
pub struct StateMachineConfig {
    /// Maximum retry attempts before giving up
    pub max_retries: u32,
    /// Initial retry delay
    pub initial_retry_delay: Duration,
    /// Maximum retry delay
    pub max_retry_delay: Duration,
    /// Heartbeat interval
    pub heartbeat_interval: Duration,
    /// Heartbeat timeout
    pub heartbeat_timeout: Duration,
    /// Whether authentication is required
    pub requires_auth: bool,
}

impl Default for StateMachineConfig {
    fn default() -> (c: Self)
        ensures
            c.max_retries == 10,
            duration_nanos(c.initial_retry_delay) == 100_000_000,
            duration_nanos(c.max_retry_delay) == 30_000_000_000,
            duration_nanos(c.heartbeat_interval) == 30_000_000_000,
            duration_nanos(c.heartbeat_timeout) == 10_000_000_000,
            !c.requires_auth,
    {
        StateMachineConfig {
            max_retries: 10,
            initial_retry_delay: duration_from_millis(100),
            max_retry_delay: duration_from_secs(30),
            heartbeat_interval: duration_from_secs(30),
            heartbeat_timeout: duration_from_secs(10),
            requires_auth: false,
        }
    }
}

/// State machine errors.
#[derive(Debug, Clone, PartialEq, Eq)]
pub enum StateError {
    /// Invalid state transition attempted
    InvalidTransition { from: ConnectionState, action: String },
    /// Connection already closed
    AlreadyClosed,
}

/// The history after recording `t`: the oldest entry leaves once the bound is reached.
pub open spec fn bounded_push(h: Seq<StateTransition>, t: StateTransition) -> Seq<StateTransition> {
    if h.len() >= MAX_HISTORY {
        h.drop_first().push(t)
    } else {
        h.push(t)
    }
}

/// Whether the machine is in a state where data flows.
pub open spec fn connected_state(s: ConnectionState) -> bool {
    s is Subscribed || s is Resyncing
}

/// Whether the machine is in its terminal state.
pub open spec fn terminal_state(s: ConnectionState) -> bool {
    s is Closed
}

/// Connection state machine with deterministic transitions.
pub struct StateMachine {
    state: ConnectionState,
    config: StateMachineConfig,
    transition_history: Vec<StateTransition>,
    max_history: usize,
    current_retry_count: u32,
}

impl StateMachine {
    /// Current state.
    pub closed spec fn cur(&self) -> ConnectionState {
        self.state
    }

    /// Retry count kept across transitions.
    pub closed spec fn retries(&self) -> u32 {
        self.current_retry_count
    }

    /// Recorded transitions, oldest first.
    pub closed spec fn hist(&self) -> Seq<StateTransition> {
        self.transition_history@
    }

    /// Configured retry limit.
    pub closed spec fn max_retries(&self) -> u32 {
        self.config.max_retries
    }

    /// Whether the configuration asks for authentication.
    pub closed spec fn requires_auth(&self) -> bool {
        self.config.requires_auth
    }

    /// The machine's invariant: the history stays within its bound.
    pub closed spec fn wf(&self) -> bool {
        &&& self.max_history == MAX_HISTORY
        &&& self.transition_history@.len() <= MAX_HISTORY
    }

    /// A well-formed machine records at most `MAX_HISTORY` transitions.
    pub proof fn lemma_history_bounded(&self)
        requires
            self.wf(),
        ensures
            self.hist().len() <= MAX_HISTORY,
    {
    }

    /// `new` moved to `to` by `trigger`, recorded as `t`, keeping the configuration.
    pub open spec fn moved(
        old: StateMachine,
        new: StateMachine,
        t: StateTransition,
        to: ConnectionState,
        trigger: TransitionTrigger,
    ) -> bool {
        &&& new.wf()
        &&& new.cur() == to
        &&& t.from == old.cur()
        &&& t.to == to
        &&& t.trigger == trigger
        &&& new.hist() == bounded_push(old.hist(), t)
        &&& new.max_retries() == old.max_retries()
        &&& new.requires_auth() == old.requires_auth()
    }

    /// The request `action` was refused: nothing changed and the error names the state.
    pub open spec fn refused(
        old: StateMachine,
        new: StateMachine,
        r: Result<StateTransition, StateError>,
        action: Seq<char>,
    ) -> bool {
        &&& new == old
        &&& r matches Err(StateError::InvalidTransition { from, action: a }) && from == old.cur()
            && a@ == action
    }

    /// `new` moved to DEGRADED for `reason` with retry count `count`, recorded as `t`.
    pub open spec fn degraded(
        old: StateMachine,
        new: StateMachine,
        t: StateTransition,
        reason: DegradedReason,
        count: u32,
        trigger: TransitionTrigger,
    ) -> bool {
        &&& new.wf()
        &&& new.cur() is Degraded
        &&& new.cur()->Degraded_reason == reason
        &&& new.cur()->Degraded_retry_count == count
        &&& t.from == old.cur()
        &&& t.to == new.cur()
        &&& t.trigger == trigger
        &&& new.hist() == bounded_push(old.hist(), t)
        &&& new.retries() == old.retries()
        &&& new.max_retries() == old.max_retries()
        &&& new.requires_auth() == old.requires_auth()
    }

    /// Create a new state machine in the DISCONNECTED state.
    pub fn new(config: StateMachineConfig) -> (sm: Self)
        ensures
            sm.wf(),
            sm.cur() is Disconnected,
            sm.retries() == 0,
            sm.hist().len() == 0,
            sm.max_retries() == config.max_retries,
            sm.requires_auth() == config.requires_auth,
    {
        StateMachine {
            state: ConnectionState::Disconnected,
            config,
            transition_history: Vec::new(),
            max_history: MAX_HISTORY,
            current_retry_count: 0,
        }
    }

    /// Current state.
    pub fn state(&self) -> (s: &ConnectionState)
        ensures
            *s == self.cur(),
    {
        &self.state
    }

    /// Whether the machine is in a connected state (can receive data).
    pub fn is_connected(&self) -> (b: bool)
        ensures
            b == connected_state(self.cur()),
    {
        match self.state {
            ConnectionState::Subscribed | ConnectionState::Resyncing => true,
            _ => false,
        }
    }

    /// Whether the machine is in its terminal state.
    pub fn is_terminal(&self) -> (b: bool)
        ensures
            b == terminal_state(self.cur()),
    {
        match self.state {
            ConnectionState::Closed { .. } => true,
            _ => false,
        }
    }

    /// Transition history, oldest first.
    pub fn history(&self) -> (h: &[StateTransition])
        ensures
            h@ == self.hist(),
    {
        self.transition_history.as_slice()
    }

    /// Current retry count.
    pub fn retry_count(&self) -> (n: u32)
        ensures
            n == self.retries(),
    {
        self.current_retry_count
    }

    /// Record a transition to `to`.
    fn transition(&mut self, to: ConnectionState, trigger: TransitionTrigger) -> (t: StateTransition)
        requires
            old(self).wf(),
        ensures
            Self::moved(*old(self), *final(self), t, to, trigger),
            final(self).retries() == old(self).retries(),
    {
        let from = self.state;
        self.state = to;
        let t = StateTransition::new(from, to, trigger);
        if self.transition_history.len() >= self.max_history {
            self.transition_history.remove(0);
        }
        self.transition_history.push(t.clone());
        t
    }

    /// User initiates a connection: allowed from DISCONNECTED and CLOSED.
    pub fn connect(&mut self) -> (r: Result<StateTransition, StateError>)
        requires
            old(self).wf(),
        ensures
            match old(self).cur() {
                ConnectionState::Disconnected | ConnectionState::Closed { .. } => r matches Ok(t)
                    && Self::moved(
                    *old(self),
                    *final(self),
                    t,
                    ConnectionState::Connecting,
                    TransitionTrigger::UserConnect,
                ) && final(self).retries() == old(self).retries(),
                _ => Self::refused(*old(self), *final(self), r, "connect"@),
            },
    {
        match self.state {
            ConnectionState::Disconnected | ConnectionState::Closed { .. } => {
                Ok(self.transition(ConnectionState::Connecting, TransitionTrigger::UserConnect))
            },
            _ => Err(
                StateError::InvalidTransition { from: self.state, action: "connect".to_string() },
            ),
        }
    }

    /// User requests close: allowed from every state but CLOSED.
    pub fn close(&mut self) -> (r: Result<StateTransition, StateError>)
        requires
            old(self).wf(),
        ensures
            match old(self).cur() {
                ConnectionState::Closed { .. } => *final(self) == *old(self) && r matches Err(
                    StateError::AlreadyClosed,
                ),
                _ => r matches Ok(t) && Self::moved(
                    *old(self),
                    *final(self),
                    t,
                    ConnectionState::Closed { reason: ClosedReason::UserRequested },
                    TransitionTrigger::UserClose,
                ) && final(self).retries() == old(self).retries(),
            },
    {
        match self.state {
            ConnectionState::Closed { .. } => Err(StateError::AlreadyClosed),
            _ => Ok(
                self.transition(
                    ConnectionState::Closed { reason: ClosedReason::UserRequested },
                    TransitionTrigger::UserClose,
                ),
            ),
        }
    }

    /// WebSocket connection established: CONNECTING moves on to AUTHENTICATING when the
    /// configuration asks for authentication, else to SUBSCRIBING; the retry count restarts.
    pub fn connection_established(&mut self) -> (r: Result<StateTransition, StateError>)
        requires
            old(self).wf(),
        ensures
            match old(self).cur() {
                ConnectionState::Connecting => r matches Ok(t) && Self::moved(
                    *old(self),
                    *final(self),
                    t,
                    if old(self).requires_auth() {
                        ConnectionState::Authenticating
                    } else {
                        ConnectionState::Subscribing
                    },
                    TransitionTrigger::ConnectionEstablished,
                ) && final(self).retries() == 0,
                _ => Self::refused(*old(self), *final(self), r, "connection_established"@),
            },
    {
        match self.state {
            ConnectionState::Connecting => {
                self.current_retry_count = 0;
                let next = if self.config.requires_auth {
                    ConnectionState::Authenticating
                } else {
                    ConnectionState::Subscribing
                };
                Ok(self.transition(next, TransitionTrigger::ConnectionEstablished))
            },
            _ => Err(
                StateError::InvalidTransition {
                    from: self.state,
                    action: "connection_established".to_string(),
                },
            ),
        }
    }

    /// WebSocket connection failed: CONNECTING moves to DEGRADED, carrying the retry count.
    pub fn connection_failed(&mut self, error: String) -> (r: Result<StateTransition, StateError>)
        requires
            old(self).wf(),
        ensures
            match old(self).cur() {
                ConnectionState::Connecting => r matches Ok(t) && Self::degraded(*old(self), *final(self), t, DegradedReason::ConnectionFailed, old(self).retries(), TransitionTrigger::ConnectionFailed(error)),
                _ => Self::refused(*old(self), *final(self), r, "connection_failed"@),
            },
    {
        match self.state {
            ConnectionState::Connecting => {
                let to = ConnectionState::Degraded {
                    reason: DegradedReason::ConnectionFailed,
                    retry_count: self.current_retry_count,
                    since: instant_now(),
                };
                Ok(self.transition(to, TransitionTrigger::ConnectionFailed(error)))
            },
            _ => Err(
                StateError::InvalidTransition {
                    from: self.state,
                    action: "connection_failed".to_string(),
                },
            ),
        }
    }

    /// Authentication succeeded: AUTHENTICATING moves to SUBSCRIBING.
    pub fn auth_success(&mut self) -> (r: Result<StateTransition, StateError>)
        requires
            old(self).wf(),
        ensures
            match old(self).cur() {
                ConnectionState::Authenticating => r matches Ok(t) && Self::moved(
                    *old(self),
                    *final(self),
                    t,
                    ConnectionState::Subscribing,
                    TransitionTrigger::AuthSuccess,
                ) && final(self).retries() == old(self).retries(),
                _ => Self::refused(*old(self), *final(self), r, "auth_success"@),
            },
    {
        match self.state {
            ConnectionState::Authenticating => {
                Ok(self.transition(ConnectionState::Subscribing, TransitionTrigger::AuthSuccess))
            },
            _ => Err(
                StateError::InvalidTransition {
                    from: self.state,
                    action: "auth_success".to_string(),
                },
            ),
        }
    }

    /// Authentication failed: AUTHENTICATING moves to DEGRADED with a retry count of zero.
    pub fn auth_failed(&mut self, error: String) -> (r: Result<StateTransition, StateError>)
        requires
            old(self).wf(),
        ensures
            match old(self).cur() {
                ConnectionState::Authenticating => r matches Ok(t) && Self::degraded(*old(self), *final(self), t, DegradedReason::AuthenticationFailed, 0, TransitionTrigger::AuthFailed(error)),
                _ => Self::refused(*old(self), *final(self), r, "auth_failed"@),
            },
    {
        match self.state {
            ConnectionState::Authenticating => {
                let to = ConnectionState::Degraded {
                    reason: DegradedReason::AuthenticationFailed,
                    retry_count: 0,
                    since: instant_now(),
                };
                Ok(self.transition(to, TransitionTrigger::AuthFailed(error)))
            },
            _ => Err(
                StateError::InvalidTransition {
                    from: self.state,
                    action: "auth_failed".to_string(),
                },
            ),
        }
    }

    /// All subscriptions confirmed: SUBSCRIBING moves to SUBSCRIBED.
    pub fn subscriptions_confirmed(&mut self) -> (r: Result<StateTransition, StateError>)
        requires
            old(self).wf(),
        ensures
            match old(self).cur() {
                ConnectionState::Subscribing => r matches Ok(t) && Self::moved(
                    *old(self),
                    *final(self),
                    t,
                    ConnectionState::Subscribed,
                    TransitionTrigger::SubscriptionsConfirmed,
                ) && final(self).retries() == old(self).retries(),
                _ => Self::refused(*old(self), *final(self), r, "subscriptions_confirmed"@),
            },
    {
        match self.state {
            ConnectionState::Subscribing => {
                Ok(
                    self.transition(
                        ConnectionState::Subscribed,
                        TransitionTrigger::SubscriptionsConfirmed,
                    ),
                )
            },
            _ => Err(
                StateError::InvalidTransition {
                    from: self.state,
                    action: "subscriptions_confirmed".to_string(),
                },
            ),
        }
    }

    /// Sequence gap detected: SUBSCRIBED moves to RESYNCING.
    pub fn gap_detected(&mut self, expected: u64, received: u64) -> (r: Result<
        StateTransition,
        StateError,
    >)
        requires
            old(self).wf(),
        ensures
            match old(self).cur() {
                ConnectionState::Subscribed => r matches Ok(t) && Self::moved(
                    *old(self),
                    *final(self),
                    t,
                    ConnectionState::Resyncing,
                    TransitionTrigger::SequenceGap { expected, received },
                ) && final(self).retries() == old(self).retries(),
                _ => Self::refused(*old(self), *final(self), r, "gap_detected"@),
            },
    {
        match self.state {
            ConnectionState::Subscribed => {
                Ok(
                    self.transition(
                        ConnectionState::Resyncing,
                        TransitionTrigger::SequenceGap { expected, received },
                    ),
                )
            },
            _ => Err(
                StateError::InvalidTransition {
                    from: self.state,
                    action: "gap_detected".to_string(),
                },
            ),
        }
    }

    /// Resync completed: RESYNCING moves back to SUBSCRIBED.
    pub fn resync_complete(&mut self) -> (r: Result<StateTransition, StateError>)
        requires
            old(self).wf(),
        ensures
            match old(self).cur() {
                ConnectionState::Resyncing => r matches Ok(t) && Self::moved(
                    *old(self),
                    *final(self),
                    t,
                    ConnectionState::Subscribed,
                    TransitionTrigger::ResyncComplete,
                ) && final(self).retries() == old(self).retries(),
                _ => Self::refused(*old(self), *final(self), r, "resync_complete"@),
            },
    {
        match self.state {
            ConnectionState::Resyncing => {
                Ok(self.transition(ConnectionState::Subscribed, TransitionTrigger::ResyncComplete))
            },
            _ => Err(
                StateError::InvalidTransition {
                    from: self.state,
                    action: "resync_complete".to_string(),
                },
            ),
        }
    }

    /// Server disconnected: AUTHENTICATING, SUBSCRIBING, SUBSCRIBED and RESYNCING move to
    /// DEGRADED with a retry count of zero.
    pub fn server_disconnect(&mut self, code: u16, reason: String) -> (r: Result<
        StateTransition,
        StateError,
    >)
        requires
            old(self).wf(),
        ensures
            match old(self).cur() {
                ConnectionState::Subscribed
                | ConnectionState::Resyncing
                | ConnectionState::Subscribing
                | ConnectionState::Authenticating => r matches Ok(t) && Self::degraded(*old(self), *final(self), t, DegradedReason::ServerDisconnect, 0, TransitionTrigger::ServerDisconnect(code, reason)),
                _ => Self::refused(*old(self), *final(self), r, "server_disconnect"@),
            },
    {
        match self.state {
            ConnectionState::Subscribed
            | ConnectionState::Resyncing
            | ConnectionState::Subscribing
            | ConnectionState::Authenticating => {
                let to = ConnectionState::Degraded {
                    reason: DegradedReason::ServerDisconnect,
                    retry_count: 0,
                    since: instant_now(),
                };
                Ok(self.transition(to, TransitionTrigger::ServerDisconnect(code, reason)))
            },
            _ => Err(
                StateError::InvalidTransition {
                    from: self.state,
                    action: "server_disconnect".to_string(),
                },
            ),
        }
    }

    /// Retry from DEGRADED: the retry count goes up by one; past the configured limit the
    /// machine closes, otherwise it reconnects.
    pub fn retry(&mut self) -> (r: Result<StateTransition, StateError>)
        requires
            old(self).wf(),
            old(self).retries() < u32::MAX,
        ensures
            match old(self).cur() {
                ConnectionState::Degraded { .. } => final(self).retries() == old(self).retries()
                    + 1 && if old(self).retries() + 1 > old(self).max_retries() {
                    r matches Ok(t) && Self::moved(
                        *old(self),
                        *final(self),
                        t,
                        ConnectionState::Closed { reason: ClosedReason::MaxRetriesExceeded },
                        TransitionTrigger::MaxRetriesExceeded,
                    )
                } else {
                    r matches Ok(t) && Self::moved(
                        *old(self),
                        *final(self),
                        t,
                        ConnectionState::Connecting,
                        TransitionTrigger::RetryAttempt((old(self).retries() + 1) as u32),
                    )
                },
                _ => Self::refused(*old(self), *final(self), r, "retry"@),
            },
    {
        match self.state {
            ConnectionState::Degraded { .. } => {
                self.current_retry_count = self.current_retry_count + 1;
                if self.current_retry_count > self.config.max_retries {
                    Ok(
                        self.transition(
                            ConnectionState::Closed { reason: ClosedReason::MaxRetriesExceeded },
                            TransitionTrigger::MaxRetriesExceeded,
                        ),
                    )
                } else {
                    let n = self.current_retry_count;
                    Ok(self.transition(ConnectionState::Connecting, TransitionTrigger::RetryAttempt(n)))
                }
            },
            _ => Err(
                StateError::InvalidTransition { from: self.state, action: "retry".to_string() },
            ),
        }
    }
}

/// Recording a transition in a history of at most `MAX_HISTORY` entries
/// keeps the newest `MAX_HISTORY`: the length grows by one up to the bound,
/// and the new transition comes last.
pub proof fn law_history_grows_to_bound(h: Seq<StateTransition>, t: StateTransition)
    requires
        h.len() <= MAX_HISTORY,
    ensures
        bounded_push(h, t).len() == if h.len() + 1 <= MAX_HISTORY {
            (h.len() + 1) as int
        } else {
            MAX_HISTORY as int
        },
        bounded_push(h, t).last() == t,
{
}

} // verus!

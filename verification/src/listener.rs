//! The change listener and its supervision policy.
//!
//! The listener subscribes to one fixed, well-known channel of the external
//! change feed. Each received message either decodes to a change event,
//! which is dispatched to the broadcaster, or is dropped; neither outcome
//! touches the subscription. A failure of the subscription itself ends the
//! attempt, and the supervisor restarts the listener after a fixed backoff,
//! unconditionally and indefinitely: there is no attempt limit and no
//! terminal state. The I/O lives outside; this module decides, from state
//! and event, the next state and the action to perform.

use vstd::prelude::*;

use crate::event::{spec_parse_event, parse_event, NotificationPayload};

verus! {

/// Fixed backoff before the listener is restarted, in seconds.
pub const RESTART_BACKOFF_SECS: u64 = 5;

/// Where the listener stands: establishing its subscription, or subscribed
/// and awaiting feed messages.
#[derive(Clone, Copy, Debug, PartialEq, Eq, Structural)]
pub enum ListenerState {
    Connecting,
    Listening,
}

/// What the outside world reports to the listener.
pub enum ListenerEvent {
    /// The subscription to the feed channel was established.
    SubscribeOk,
    /// The subscription could not be established.
    SubscribeFailed,
    /// One message arrived on the feed channel.
    MessageReceived(String),
    /// The subscription was lost.
    FeedClosed,
}

/// What the runner must do next.
#[derive(Clone, Copy, Debug, PartialEq, Eq, Structural)]
pub enum ListenerAction {
    /// Await the next feed message.
    AwaitMessages,
    /// Hand the decoded event to the broadcaster, without blocking receipt
    /// of the next message.
    Dispatch(NotificationPayload),
    /// Drop the undecodable message and await the next one.
    DropMessage,
    /// Wait the given number of seconds, then subscribe again.
    RestartAfterBackoff(u64),
}

/// Whether `event` can reach the listener in `state`: subscription results
/// arrive only while connecting, messages and loss only while listening.
pub open spec fn event_fits(state: ListenerState, event: ListenerEvent) -> bool {
    match event {
        ListenerEvent::SubscribeOk => state is Connecting,
        ListenerEvent::SubscribeFailed => state is Connecting,
        ListenerEvent::MessageReceived(_) => state is Listening,
        ListenerEvent::FeedClosed => state is Listening,
    }
}

/// The listener's transition function: a decoded message is dispatched, an
/// undecodable one dropped, and every failure of the subscription — at
/// establishment or later — leads back to connecting after the fixed
/// backoff. No event reaches a terminal state.
pub open spec fn spec_listener_step(state: ListenerState, event: ListenerEvent) -> (
    ListenerState,
    ListenerAction,
) {
    match event {
        ListenerEvent::SubscribeOk => (ListenerState::Listening, ListenerAction::AwaitMessages),
        ListenerEvent::SubscribeFailed => (
            ListenerState::Connecting,
            ListenerAction::RestartAfterBackoff(RESTART_BACKOFF_SECS),
        ),
        ListenerEvent::MessageReceived(m) => match spec_parse_event(m@) {
            Some(ev) => (ListenerState::Listening, ListenerAction::Dispatch(ev)),
            None => (ListenerState::Listening, ListenerAction::DropMessage),
        },
        ListenerEvent::FeedClosed => (
            ListenerState::Connecting,
            ListenerAction::RestartAfterBackoff(RESTART_BACKOFF_SECS),
        ),
    }
}

/// Applies one event to the listener, returning the next state and the
/// action the runner must perform.
pub fn listener_step(state: ListenerState, event: ListenerEvent) -> (r: (
    ListenerState,
    ListenerAction,
))
    requires
        event_fits(state, event),
    ensures
        r == spec_listener_step(state, event),
{
    match event {
        ListenerEvent::SubscribeOk => (ListenerState::Listening, ListenerAction::AwaitMessages),
        ListenerEvent::SubscribeFailed => (
            ListenerState::Connecting,
            ListenerAction::RestartAfterBackoff(RESTART_BACKOFF_SECS),
        ),
        ListenerEvent::MessageReceived(m) => match parse_event(m.as_str()) {
            Some(ev) => (ListenerState::Listening, ListenerAction::Dispatch(ev)),
            None => (ListenerState::Listening, ListenerAction::DropMessage),
        },
        ListenerEvent::FeedClosed => (
            ListenerState::Connecting,
            ListenerAction::RestartAfterBackoff(RESTART_BACKOFF_SECS),
        ),
    }
}

/// The one channel of the change feed the listener subscribes to.
pub fn feed_channel() -> (r: &'static str)
    ensures
        r@ == "class_status_updates"@,
{
    "class_status_updates"
}

/// Listener resilience: a lost subscription makes the supervisor wait
/// exactly the fixed backoff and subscribe again — never give up — and once
/// the new subscription stands, a subsequently published event is decoded
/// and dispatched as if the disconnect had never happened.
pub proof fn lemma_listener_resilience(m: String, ev: NotificationPayload)
    requires
        spec_parse_event(m@) == Some(ev),
    ensures
        ({
            let (s1, a1) = spec_listener_step(
                ListenerState::Listening,
                ListenerEvent::FeedClosed,
            );
            let (s2, a2) = spec_listener_step(s1, ListenerEvent::SubscribeOk);
            let (s3, a3) = spec_listener_step(s2, ListenerEvent::MessageReceived(m));
            &&& s1 is Connecting
            &&& a1 == ListenerAction::RestartAfterBackoff(5u64)
            &&& s2 is Listening
            &&& a2 is AwaitMessages
            &&& s3 is Listening
            &&& a3 == ListenerAction::Dispatch(ev)
        }),
{
}

/// The restart policy has no cutoff: whatever state the listener is in,
/// a subscription failure leads back to connecting with the fixed backoff,
/// never to an end.
pub proof fn lemma_restart_unconditional(state: ListenerState)
    ensures
        spec_listener_step(state, ListenerEvent::SubscribeFailed) == (
            ListenerState::Connecting,
            ListenerAction::RestartAfterBackoff(5u64),
        ),
        spec_listener_step(state, ListenerEvent::FeedClosed) == (
            ListenerState::Connecting,
            ListenerAction::RestartAfterBackoff(5u64),
        ),
{
}

} // verus!

//! The moderation workflow: a sender's message becomes a pending item with a
//! randomized obfuscation delay, the moderator is notified after the delay,
//! and an approve or reject press drives the item to its terminal state.
//!
//! The functions here decide; performing a decision (sending, editing,
//! sleeping) is the transport's job. The transport reports each outcome back,
//! and the corresponding function says exactly how the session and the
//! registry change for either report.

use vstd::prelude::*;
use rand::Rng;
use crate::registry::{Registry, spec_record_failure, spec_record_success};

verus! {

/// The shortest obfuscation delay, in seconds.
pub const DELAY_MIN_SECONDS: u32 = 3;

/// The exclusive upper bound on the obfuscation delay, in seconds.
pub const DELAY_BOUND_SECONDS: u32 = 723;

/// Relies on rand::Rng::gen_range over the half-open range 3..723: the
/// sampled value lies in that range. Nothing further is assumed of the draw.
#[verifier::external_body]
fn sample_delay_seconds() -> (r: u32)
    ensures
        DELAY_MIN_SECONDS <= r < DELAY_BOUND_SECONDS,
{
    rand::thread_rng().gen_range(DELAY_MIN_SECONDS..DELAY_BOUND_SECONDS)
}

/// One sender message awaiting a moderation decision. Ephemeral: it lives
/// only for the round it is created for.
pub struct PendingModeration {
    /// The moderator who will decide.
    pub moderator_id: i64,
    /// The sender's text, with no sender identity attached.
    pub message_text: String,
    /// How long to wait before notifying the moderator, to mask the
    /// sender's activity pattern.
    pub delay_seconds: u32,
}

impl PendingModeration {
    /// A pending item for the moderator, with a freshly sampled
    /// obfuscation delay.
    pub fn new(moderator_id: i64, message_text: String) -> (p: PendingModeration)
        ensures
            p.moderator_id == moderator_id,
            p.message_text == message_text,
            DELAY_MIN_SECONDS <= p.delay_seconds < DELAY_BOUND_SECONDS,
    {
        PendingModeration { moderator_id, message_text, delay_seconds: sample_delay_seconds() }
    }
}

/// A moderator's verdict on a pending item.
#[derive(Clone, Copy, PartialEq, Eq, Structural, Debug)]
pub enum Decision {
    Approved,
    Rejected,
}

/// Where a relay session stands. `Published`, `Discarded` and `RouteFailed`
/// are terminal.
#[derive(Clone, Copy, PartialEq, Eq, Structural, Debug)]
pub enum SessionState {
    /// The sender's message has been collected and a moderator resolved.
    Collected,
    /// The obfuscation delay is pending, or has elapsed and the moderator
    /// may now decide.
    Delayed,
    /// The moderator has pressed a button; the verdict is recorded.
    Decided(Decision),
    /// The message reached the public destination.
    Published,
    /// The moderator rejected; the message went nowhere.
    Discarded,
    /// The item could not complete: the moderator was unreachable or
    /// publication failed.
    RouteFailed,
}

/// One in-flight relay of a sender message, from collection to its terminal
/// state. The state moves only through the methods below, so a decision can
/// be recorded at most once per session.
pub struct RelaySession {
    item: PendingModeration,
    state: SessionState,
}

impl RelaySession {
    /// The pending item this session carries.
    pub closed spec fn spec_item(&self) -> PendingModeration {
        self.item
    }

    /// The pending item this session carries.
    pub fn item(&self) -> (r: &PendingModeration)
        ensures
            *r == self.spec_item(),
    {
        &self.item
    }

    /// Where this session stands.
    pub closed spec fn spec_state(&self) -> SessionState {
        self.state
    }

    /// Where this session stands.
    pub fn state(&self) -> (s: SessionState)
        ensures
            s == self.spec_state(),
    {
        self.state
    }

    /// The sender's message has been told it is queued: the delay now runs.
    pub fn mark_delayed(&mut self)
        requires
            old(self).spec_state() is Collected,
        ensures
            final(self).spec_state() is Delayed,
            final(self).spec_item() == old(self).spec_item(),
    {
        self.state = SessionState::Delayed;
    }

    /// The transport reports whether the delayed private notice reached the
    /// moderator. Whatever the report, the registry is untouched: the
    /// failure counter tracks publication into the public destination, and
    /// a moderator's private channel being unreachable must not count
    /// against it.
    #[allow(unused_variables)]
    pub fn on_notify_outcome(&mut self, registry: &mut Registry, delivered: bool)
        requires
            old(self).spec_state() is Delayed,
        ensures
            final(self).spec_item() == old(self).spec_item(),
            final(registry)@ == old(registry)@,
            delivered ==> final(self).spec_state() is Delayed,
            !delivered ==> final(self).spec_state() is RouteFailed,
    {
        if !delivered {
            self.state = SessionState::RouteFailed;
        }
    }

    /// The moderator approved. The verdict is latched and the item's
    /// publication target — the destination the moderator administers right
    /// now — is resolved; `None` means the registration has meanwhile
    /// vanished, and publication can only fail.
    pub fn on_approve(&mut self, registry: &Registry) -> (target: Option<String>)
        requires
            old(self).spec_state() is Delayed,
        ensures
            final(self).spec_item() == old(self).spec_item(),
            final(self).spec_state() == SessionState::Decided(Decision::Approved),
            match target {
                Some(d) => registry@.dom().contains(old(self).spec_item().moderator_id as int)
                    && d@ == registry@[old(self).spec_item().moderator_id as int].destination,
                None => !registry@.dom().contains(old(self).spec_item().moderator_id as int),
            },
    {
        self.state = SessionState::Decided(Decision::Approved);
        registry.lookup_destination(self.item.moderator_id)
    }

    /// The moderator rejected. The verdict is latched; nothing is resolved
    /// and nothing will be published.
    pub fn on_reject(&mut self)
        requires
            old(self).spec_state() is Delayed,
        ensures
            final(self).spec_item() == old(self).spec_item(),
            final(self).spec_state() == SessionState::Decided(Decision::Rejected),
    {
        self.state = SessionState::Decided(Decision::Rejected);
    }

    /// The rejection has been acknowledged: the item is discarded.
    pub fn finish_rejection(&mut self)
        requires
            old(self).spec_state() == SessionState::Decided(Decision::Rejected),
        ensures
            final(self).spec_item() == old(self).spec_item(),
            final(self).spec_state() is Discarded,
    {
        self.state = SessionState::Discarded;
    }

    /// The transport reports whether publication into the public
    /// destination succeeded. Success resets the moderator's failure
    /// counter and ends the session in `Published`; failure counts against
    /// the registration — possibly evicting it — and ends the session in
    /// `RouteFailed`.
    pub fn on_publish_outcome(&mut self, registry: &mut Registry, delivered: bool)
        requires
            old(self).spec_state() == SessionState::Decided(Decision::Approved),
        ensures
            final(self).spec_item() == old(self).spec_item(),
            delivered ==> final(self).spec_state() is Published && final(registry)@
                == spec_record_success(old(registry)@, old(self).spec_item().moderator_id as int),
            !delivered ==> final(self).spec_state() is RouteFailed && final(registry)@
                == spec_record_failure(old(registry)@, old(self).spec_item().moderator_id as int),
    {
        if delivered {
            registry.record_delivery_success(self.item.moderator_id);
            self.state = SessionState::Published;
        } else {
            registry.record_delivery_failure(self.item.moderator_id);
            self.state = SessionState::RouteFailed;
        }
    }
}

/// Start a relay session for a sender message aimed at the chosen
/// destination. `None` means the selection is stale: no moderator owns that
/// destination any more (it may have been evicted between menu render and
/// tap), and the sender should be told so.
pub fn begin_relay(registry: &Registry, destination_name: &String, message_text: String) -> (r:
    Option<RelaySession>)
    ensures
        match r {
            Some(s) => {
                &&& s.spec_state() is Collected
                &&& registry@.dom().contains(s.spec_item().moderator_id as int)
                &&& registry@[s.spec_item().moderator_id as int].destination == destination_name@
                &&& s.spec_item().message_text == message_text
                &&& DELAY_MIN_SECONDS <= s.spec_item().delay_seconds < DELAY_BOUND_SECONDS
            },
            None => forall|m: int|
                registry@.dom().contains(m) ==> (#[trigger] registry@[m]).destination
                    != destination_name@,
        },
{
    match registry.lookup_moderator(destination_name) {
        Some(moderator_id) => Some(
            RelaySession {
                item: PendingModeration::new(moderator_id, message_text),
                state: SessionState::Collected,
            },
        ),
        None => None,
    }
}

/// How an inline-button callback is routed, judged from its payload and
/// whether the pressed message quotes a sender text.
pub enum CallbackRoute {
    /// The callback carries no payload at all.
    NoData,
    /// A sender picked a destination from the menu; the payload names it.
    Selection(String),
    /// A moderator approved the quoted-free message under their controls.
    Approve,
    /// A moderator rejected it.
    Reject,
    /// The payload fits no live interaction: the referenced context is gone.
    Stale,
}

/// Route a callback: a press on a message that quotes a sender text is a
/// destination selection whatever its payload; otherwise the payload must be
/// one of the two decision codes, and anything else is stale.
pub fn classify_callback(data: Option<String>, has_quoted_sender_text: bool) -> (r: CallbackRoute)
    ensures
        match r {
            CallbackRoute::NoData => data is None,
            CallbackRoute::Selection(d) => has_quoted_sender_text && data == Some(d),
            CallbackRoute::Approve => {
                &&& !has_quoted_sender_text
                &&& data matches Some(s) && s@ == "+"@
            },
            CallbackRoute::Reject => {
                &&& !has_quoted_sender_text
                &&& data matches Some(s) && s@ == "-"@
            },
            CallbackRoute::Stale => {
                &&& !has_quoted_sender_text
                &&& data matches Some(s) && s@ != "+"@ && s@ != "-"@
            },
        },
{
    match data {
        None => CallbackRoute::NoData,
        Some(s) => {
            if has_quoted_sender_text {
                CallbackRoute::Selection(s)
            } else {
                let plus: String = "+".to_owned();
                let minus: String = "-".to_owned();
                if s == plus {
                    CallbackRoute::Approve
                } else if s == minus {
                    CallbackRoute::Reject
                } else {
                    CallbackRoute::Stale
                }
            }
        },
    }
}

/// The callback payload carried by a moderator's inline control for the
/// given verdict; `classify_callback` routes it back to that verdict.
pub fn decision_code(decision: Decision) -> (r: String)
    ensures
        decision is Approved ==> r@ == "+"@,
        decision is Rejected ==> r@ == "-"@,
{
    match decision {
        Decision::Approved => "+".to_owned(),
        Decision::Rejected => "-".to_owned(),
    }
}

} // verus!

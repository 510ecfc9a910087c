//! The session layer: the authenticated identity and the upgrade gate, the
//! session lifecycle machine, and the hub that a session actor drives — the
//! inbound dispatcher that commits actions to the store and publishes the
//! resulting events, and the outbound pump that turns bus events into frames
//! for one client.
//!
//! Cross-session delivery flows only through the bus: the dispatcher hands
//! back at most one per-session reply and records everything else in the bus
//! log, so a malformed or rejected action can reach no other session.

use crate::bus::{Bus, RecvOutcome, Subscription, spec_recv};
use crate::chat::{ChatMessage, OutgoingMessage};
use crate::frame::{
    InboundAction, SpecFrame, event_wf, parse_frame, render_error, render_outgoing,
    spec_parse_frame, spec_render_error, spec_render_outgoing,
};
use crate::store::{MAX_TIMESTAMP_MICROS, MessageStore, lemma_find_none, lemma_find_some, spec_find};
use vstd::prelude::*;

verus! {

/// The caller identity extracted from the session credential at upgrade:
/// author id, display handle, and when the credential lapses. Immutable for
/// the session's lifetime.
#[derive(Debug, Clone, PartialEq)]
pub struct Identity {
    pub email: String,
    pub username: String,
    pub expiry: i64,
}

impl Identity {
    /// An exact copy, provably equal to `self`.
    pub fn duplicate(&self) -> (r: Self)
        ensures
            r == *self,
    {
        Identity {
            email: self.email.clone(),
            username: self.username.clone(),
            expiry: self.expiry,
        }
    }
}

/// Why a credential was rejected at upgrade.
#[derive(Debug, Clone, PartialEq)]
pub enum AuthError {
    Missing,
    Malformed,
    Expired,
    SignatureInvalid,
}

/// Whether the upgrade proceeds with an identity or is refused.
#[derive(Debug, Clone, PartialEq)]
pub enum UpgradeDecision {
    Accept(Identity),
    Reject(AuthError),
}

/// Decides the upgrade from the verifier's outcome: no cookie at all is
/// `Missing`, a failed verification keeps its reason, and a verified but
/// lapsed identity is `Expired`. Only an unexpired, verified identity opens
/// a session; every rejection answers 401 without opening a stream.
pub fn gate_upgrade(credential: Option<Result<Identity, AuthError>>, now: i64) -> (r:
    UpgradeDecision)
    ensures
        credential is None ==> r == UpgradeDecision::Reject(AuthError::Missing),
        credential matches Some(Err(e)) ==> r == UpgradeDecision::Reject(e),
        credential matches Some(Ok(id)) ==> r == (if id.expiry <= now {
            UpgradeDecision::Reject(AuthError::Expired)
        } else {
            UpgradeDecision::Accept(id)
        }),
{
    match credential {
        None => UpgradeDecision::Reject(AuthError::Missing),
        Some(Err(e)) => UpgradeDecision::Reject(e),
        Some(Ok(id)) => {
            if id.expiry <= now {
                UpgradeDecision::Reject(AuthError::Expired)
            } else {
                UpgradeDecision::Accept(id)
            }
        },
    }
}

/// Where a session stands in its lifecycle.
#[derive(Debug, Clone, PartialEq)]
pub enum SessionPhase {
    Upgrading,
    Authenticating,
    Rejected,
    Active,
    Closing,
    Terminated,
}

/// What happens to a session.
#[derive(Debug, Clone, PartialEq)]
pub enum SessionEvent {
    UpgradeRequested,
    CredentialOk,
    CredentialBad,
    ClientClosed,
    SendFailed,
    InboundEnded,
    LaggedOut,
    CloseDone,
}

/// The lifecycle table: upgrade leads to authentication; a good credential
/// activates the session and a bad one rejects it; any of client close, send
/// error, inbound end or lag closes an active session; closing terminates.
/// Every other pairing leaves the phase unchanged — in particular, a quiet
/// session is never closed for being quiet.
pub open spec fn spec_session_transition(p: SessionPhase, e: SessionEvent) -> SessionPhase {
    match (p, e) {
        (SessionPhase::Upgrading, SessionEvent::UpgradeRequested) => SessionPhase::Authenticating,
        (SessionPhase::Authenticating, SessionEvent::CredentialOk) => SessionPhase::Active,
        (SessionPhase::Authenticating, SessionEvent::CredentialBad) => SessionPhase::Rejected,
        (SessionPhase::Active, SessionEvent::ClientClosed) => SessionPhase::Closing,
        (SessionPhase::Active, SessionEvent::SendFailed) => SessionPhase::Closing,
        (SessionPhase::Active, SessionEvent::InboundEnded) => SessionPhase::Closing,
        (SessionPhase::Active, SessionEvent::LaggedOut) => SessionPhase::Closing,
        (SessionPhase::Closing, SessionEvent::CloseDone) => SessionPhase::Terminated,
        (q, _) => q,
    }
}

/// Steps the lifecycle machine.
pub fn session_transition(p: SessionPhase, e: SessionEvent) -> (r: SessionPhase)
    ensures
        r == spec_session_transition(p, e),
{
    match (p, e) {
        (SessionPhase::Upgrading, SessionEvent::UpgradeRequested) => SessionPhase::Authenticating,
        (SessionPhase::Authenticating, SessionEvent::CredentialOk) => SessionPhase::Active,
        (SessionPhase::Authenticating, SessionEvent::CredentialBad) => SessionPhase::Rejected,
        (SessionPhase::Active, SessionEvent::ClientClosed) => SessionPhase::Closing,
        (SessionPhase::Active, SessionEvent::SendFailed) => SessionPhase::Closing,
        (SessionPhase::Active, SessionEvent::InboundEnded) => SessionPhase::Closing,
        (SessionPhase::Active, SessionEvent::LaggedOut) => SessionPhase::Closing,
        (SessionPhase::Closing, SessionEvent::CloseDone) => SessionPhase::Terminated,
        (q, _) => q,
    }
}

/// What one inbound frame produced: at most one error frame for the acting
/// session itself, and at most one event published to every session.
#[derive(Debug, Clone, PartialEq)]
pub struct FrameOutcome {
    pub reply: Option<String>,
    pub published: Option<OutgoingMessage>,
}

/// The shared hub: the message store and the broadcast bus.
pub struct Hub {
    pub store: MessageStore,
    pub bus: Bus,
}

impl Hub {
    /// Well-formedness: the store invariant, and every published event
    /// carries store-assigned fields in range.
    pub open spec fn wf(&self) -> bool {
        &&& self.store.wf()
        &&& forall|i: int| 0 <= i < self.bus.log@.len() ==> event_wf(#[trigger] self.bus.log@[i])
    }

    /// An empty hub.
    pub fn new() -> (r: Self)
        ensures
            r.wf(),
            r.store.rows@ == Seq::<ChatMessage>::empty(),
            r.store.next_id == 1,
            r.bus.log@ == Seq::<OutgoingMessage>::empty(),
            !r.bus.closed,
    {
        Hub { store: MessageStore::new(), bus: Bus::new() }
    }

    /// Dispatches one inbound text frame from the session of identity `me`.
    ///
    /// A malformed frame changes nothing and is answered with nothing. A
    /// `new_message` action commits a row whose author fields come from the
    /// authenticated identity alone — never from the frame — and publishes
    /// it; an empty body is dropped. A `delete_message` action mutates the
    /// store only when the stored author equals the acting identity;
    /// otherwise the store is unchanged and the session alone hears why.
    /// Whatever was rejected, nothing reaches the bus, so no other session
    /// sees a frame.
    pub fn handle_frame(&mut self, me: &Identity, text: &str, now: i64) -> (r: FrameOutcome)
        requires
            old(self).wf(),
            0 <= now <= MAX_TIMESTAMP_MICROS,
        ensures
            final(self).wf(),
            final(self).bus.closed == old(self).bus.closed,
            r.published matches Some(OutgoingMessage::NewMessage(m)) ==> (m.email@ == me.email@
                && m.username@ == me.username@),
            match spec_parse_frame(text@) {
                None => *final(self) == *old(self) && r.reply is None && r.published is None,
                Some(SpecFrame::NewMessage { body }) => {
                    if body.len() == 0 {
                        *final(self) == *old(self) && r.reply is None && r.published is None
                    } else if old(self).store.next_id == i32::MAX {
                        *final(self) == *old(self) && r.published is None && (r.reply matches Some(
                            f,
                        ) && f@ == spec_render_error("Error saving message"@))
                    } else {
                        r.published matches Some(ev) && (ev matches OutgoingMessage::NewMessage(m)
                            && ({
                            &&& m.id == old(self).store.next_id
                            &&& m.email@ == me.email@
                            &&& m.username@ == me.username@
                            &&& m.message@ == body
                            &&& m.time == (if now >= old(self).store.clock {
                                now
                            } else {
                                old(self).store.clock
                            })
                            &&& final(self).store.rows@ == old(self).store.rows@.push(m)
                            &&& final(self).store.next_id == old(self).store.next_id + 1
                            &&& final(self).store.clock == m.time
                            &&& final(self).bus.log@ == old(self).bus.log@.push(ev)
                            &&& r.reply is None
                        }))
                    }
                },
                Some(SpecFrame::Delete { id }) => {
                    if !(i32::MIN <= id <= i32::MAX) {
                        *final(self) == *old(self) && r.reply is None && r.published is None
                    } else {
                        match spec_find(old(self).store.rows@, id as i32) {
                            None => *final(self) == *old(self) && r.published is None && (r.reply
                                matches Some(f) && f@ == spec_render_error("Message not found"@)),
                            Some(m) => {
                                if m.email@ != me.email@ {
                                    *final(self) == *old(self) && r.published is None && (r.reply
                                        matches Some(f) && f@ == spec_render_error(
                                        "You can only delete your own messages"@,
                                    ))
                                } else {
                                    &&& r.reply is None
                                    &&& r.published == Some(
                                        OutgoingMessage::Delete { message_id: id as i32 },
                                    )
                                    &&& final(self).bus.log@ == old(self).bus.log@.push(
                                        OutgoingMessage::Delete { message_id: id as i32 },
                                    )
                                    &&& final(self).store.next_id == old(self).store.next_id
                                    &&& final(self).store.clock == old(self).store.clock
                                    &&& exists|k: int|
                                        {
                                            &&& 0 <= k < old(self).store.rows@.len()
                                            &&& (#[trigger] old(self).store.rows@[k]).id == id
                                            &&& final(self).store.rows@ == old(
                                                self,
                                            ).store.rows@.remove(k)
                                        }
                                }
                            },
                        }
                    }
                },
            },
    {
        match parse_frame(text) {
            None => FrameOutcome { reply: None, published: None },
            Some(InboundAction::NewMessage(nm)) => {
                if nm.message.as_str().is_empty() {
                    return FrameOutcome { reply: None, published: None };
                }
                match self.store.append(&me.email, &me.username, &nm.message, now) {
                    Ok(m) => {
                        let ev = OutgoingMessage::NewMessage(m);
                        self.bus.publish(ev.duplicate());
                        FrameOutcome { reply: None, published: Some(ev) }
                    },
                    Err(_) => FrameOutcome {
                        reply: Some(render_error("Error saving message")),
                        published: None,
                    },
                }
            },
            Some(InboundAction::DeleteMessage(d)) => {
                match self.store.fetch_by_id(d.id) {
                    None => {
                        proof {
                            lemma_find_none(self.store.rows@, d.id);
                        }
                        FrameOutcome {
                            reply: Some(render_error("Message not found")),
                            published: None,
                        }
                    },
                    Some(m) => {
                        proof {
                            lemma_find_some(self.store.rows@, d.id);
                        }
                        if !(m.email == me.email) {
                            FrameOutcome {
                                reply: Some(
                                    render_error("You can only delete your own messages"),
                                ),
                                published: None,
                            }
                        } else {
                            self.store.delete_by_id(d.id);
                            let ev = OutgoingMessage::Delete { message_id: d.id };
                            self.bus.publish(ev.duplicate());
                            FrameOutcome { reply: None, published: Some(ev) }
                        }
                    },
                }
            },
        }
    }

    /// The history read: exactly the messages in the store, most recent
    /// first. After a commit, the committed message is in the next read.
    pub fn history(&self) -> (r: Vec<ChatMessage>)
        ensures
            r@ == self.store.rows@.reverse(),
    {
        self.store.fetch_all()
    }

    /// Subscribes a new session to the events published from now on.
    pub fn subscribe(&self) -> (s: Subscription)
        ensures
            s.cursor == self.bus.log@.len(),
    {
        self.bus.subscribe()
    }
}

/// What the outbound pump does next for one session.
#[derive(Debug, Clone, PartialEq)]
pub enum PumpAction {
    /// Send this broadcast frame to the client.
    Forward(String),
    /// Send this error frame, then close the session: it lagged.
    CloseLagged(String),
    /// Nothing pending; wait for the next publish.
    Wait,
    /// The bus is shut down and drained; stop.
    Stop,
}

/// One step of the outbound pump: takes the next outcome from this session's
/// subscription and turns an event into its broadcast frame, a lag into the
/// fatal per-session error frame, and quiet or shutdown into waiting or
/// stopping.
pub fn pump_step(sub: &mut Subscription, hub: &Hub) -> (r: PumpAction)
    requires
        hub.wf(),
        old(sub).cursor <= hub.bus.log@.len(),
    ensures
        final(sub).cursor <= hub.bus.log@.len(),
        ({
            let (o, c) = spec_recv(hub.bus.log@, hub.bus.closed, old(sub).cursor as int);
            &&& final(sub).cursor == c
            &&& match o {
                RecvOutcome::Event(e) => r matches PumpAction::Forward(f) && f@
                    == spec_render_outgoing(e),
                RecvOutcome::Lagged => r matches PumpAction::CloseLagged(f) && f@
                    == spec_render_error("lagged"@),
                RecvOutcome::Empty => r == PumpAction::Wait,
                RecvOutcome::Closed => r == PumpAction::Stop,
            }
        }),
{
    match sub.recv(&hub.bus) {
        RecvOutcome::Event(e) => PumpAction::Forward(render_outgoing(&e)),
        RecvOutcome::Lagged => PumpAction::CloseLagged(render_error("lagged")),
        RecvOutcome::Empty => PumpAction::Wait,
        RecvOutcome::Closed => PumpAction::Stop,
    }
}

} // verus!

//! Per-peer state machine of a notification protocol.
//!
//! The machine owns one [`PeerContext`] per connected peer. Every operation
//! is a transition of one peer's [`PeerState`]; it may emit one
//! [`NotificationEvent`] for the application and asks the driver, through
//! [`Action`]s, to do the substream work (negotiate, write, close).

use crate::types::{Direction, PeerId, ProtocolName, SubstreamHandle, SubstreamId};
use std::collections::HashMap;
use vstd::prelude::*;

verus! {

broadcast use vstd::std_specs::hash::group_hash_axioms;

/// Progress of the inbound (remote-initiated) half of a session.
#[derive(Debug, PartialEq, Eq)]
pub enum InboundState {
    Closed,
    ReadingHandshake,
    Validating { inbound: SubstreamHandle },
    SendingHandshake,
    Open { inbound: SubstreamHandle },
}

/// Progress of the outbound (locally initiated) half of a session.
#[derive(Debug, PartialEq, Eq)]
pub enum OutboundState {
    Closed,
    OutboundInitiated { substream: SubstreamId },
    Negotiating,
    Open { handshake: Vec<u8>, outbound: SubstreamHandle },
}

/// Notification state of one peer.
#[derive(Debug, PartialEq, Eq)]
pub enum PeerState {
    /// No session. `pending_open` is an outbound request whose substream must
    /// be discarded when it materializes.
    Closed { pending_open: Option<SubstreamId> },
    /// An outbound substream was requested; nothing has arrived yet.
    OutboundInitiated { substream: SubstreamId },
    /// At least one direction exists and the handshakes are in progress.
    Validating {
        direction: Direction,
        protocol: ProtocolName,
        fallback: Option<ProtocolName>,
        outbound: OutboundState,
        inbound: InboundState,
    },
    /// Both directions are negotiated and the application holds the session.
    /// The driver keeps its shutdown signal, fired on [`Action::Shutdown`].
    Open,
}

/// Everything the protocol knows of a connected peer.
#[derive(Debug, PartialEq, Eq)]
pub struct PeerContext {
    pub state: PeerState,
}

/// The application's verdict on an inbound handshake.
#[derive(Clone, Copy, Debug, PartialEq, Eq, Structural)]
pub enum ValidationResult {
    Accept,
    Reject,
}

/// Why a session could not be opened.
#[derive(Clone, Copy, Debug, PartialEq, Eq, Structural)]
pub enum NotificationError {
    Rejected,
    NoConnection,
    DialFailure,
    NegotiationFailed,
}

/// Events delivered to the application.
#[derive(Debug, PartialEq, Eq)]
pub enum NotificationEvent {
    ValidateSubstream { peer: PeerId, protocol: ProtocolName, handshake: Vec<u8> },
    NotificationStreamOpened {
        peer: PeerId,
        protocol: ProtocolName,
        direction: Direction,
        handshake: Vec<u8>,
    },
    NotificationStreamClosed { peer: PeerId },
    NotificationStreamOpenFailure { peer: PeerId, error: NotificationError },
}

/// Outcome of a handshake exchange, reported by the driver.
#[derive(Debug, PartialEq, Eq)]
pub enum HandshakeEvent {
    /// The inbound handshake was read, or the local handshake was written back
    /// on an accepted inbound substream.
    InboundNegotiated { handshake: Vec<u8>, substream: SubstreamHandle },
    /// Handshakes were exchanged on the outbound substream.
    OutboundNegotiated { handshake: Vec<u8>, substream: SubstreamHandle },
    /// The exchange failed in the given direction; its substream is gone.
    NegotiationError { direction: Direction },
}

/// Work the driver performs on behalf of the state machine.
#[derive(Debug, PartialEq, Eq, Structural)]
pub enum Action {
    /// Send `OpenSubstream` on the peer's connection handle.
    OpenSubstream { peer: PeerId, substream_id: SubstreamId },
    /// Read the remote handshake from an inbound substream.
    NegotiateInbound { peer: PeerId, substream: SubstreamHandle },
    /// Exchange handshakes on an outbound substream.
    NegotiateOutbound { peer: PeerId, substream: SubstreamHandle },
    /// Write the local handshake on an accepted inbound substream.
    SendHandshake { peer: PeerId, substream: SubstreamHandle },
    /// Close a substream that the state machine drops.
    CloseSubstream { substream: SubstreamHandle },
    /// Hand the negotiated pair of substreams to the application.
    OpenSession { peer: PeerId, inbound: SubstreamHandle, outbound: SubstreamHandle },
    /// Fire the shutdown signal of the peer's open session.
    Shutdown { peer: PeerId },
}

/// Errors returned to the caller of an operation.
#[derive(Clone, Copy, Debug, PartialEq, Eq, Structural)]
pub enum Error {
    PeerAlreadyExists,
    PeerDoesntExist,
    InvalidState,
    ConnectionClosed,
}

// ---------------------------------------------------------------------------
// Transitions of one peer, as mathematical functions.
// ---------------------------------------------------------------------------

/// The effect of one operation on one peer: its next state, the event for the
/// application, if any, and the driver's work.
pub type Step = (PeerState, Option<NotificationEvent>, Seq<Action>);

pub open spec fn failure(peer: PeerId, error: NotificationError) -> Option<NotificationEvent> {
    Some(NotificationEvent::NotificationStreamOpenFailure { peer, error })
}

/// Close requests for the substream that an inbound half holds.
pub open spec fn inbound_close(i: InboundState) -> Seq<Action> {
    match i {
        InboundState::Validating { inbound } => seq![Action::CloseSubstream { substream: inbound }],
        InboundState::Open { inbound } => seq![Action::CloseSubstream { substream: inbound }],
        _ => seq![],
    }
}

/// Close requests for the substream that an outbound half holds.
pub open spec fn outbound_close(o: OutboundState) -> Seq<Action> {
    match o {
        OutboundState::Open { outbound, .. } => seq![Action::CloseSubstream { substream: outbound }],
        _ => seq![],
    }
}

/// The event and driver work of a connection loss in state `s`.
pub open spec fn connection_closed_step(s: PeerState, peer: PeerId) -> (
    Option<NotificationEvent>,
    Seq<Action>,
) {
    match s {
        PeerState::Closed { .. } => (None, seq![]),
        PeerState::OutboundInitiated { .. } => (failure(peer, NotificationError::Rejected), seq![]),
        PeerState::Validating { outbound, inbound, .. } => (
            failure(peer, NotificationError::Rejected),
            inbound_close(inbound) + outbound_close(outbound),
        ),
        PeerState::Open => (
            Some(NotificationEvent::NotificationStreamClosed { peer }),
            seq![Action::Shutdown { peer }],
        ),
    }
}

/// Whether a local open request in state `s` takes a fresh substream id.
pub open spec fn open_allocates(s: PeerState, connection_open: bool) -> bool {
    s == (PeerState::Closed { pending_open: None }) && connection_open
}

/// A local request to open a session; `id` is the next fresh substream id.
pub open spec fn open_substream_step(
    s: PeerState,
    peer: PeerId,
    id: SubstreamId,
    connection_open: bool,
) -> Step {
    if s == (PeerState::Closed { pending_open: None }) {
        if connection_open {
            (
                PeerState::OutboundInitiated { substream: id },
                None,
                seq![Action::OpenSubstream { peer, substream_id: id }],
            )
        } else {
            (s, failure(peer, NotificationError::NoConnection), seq![])
        }
    } else {
        (s, None, seq![])
    }
}

/// The remote opened an inbound substream.
pub open spec fn inbound_substream_step(
    s: PeerState,
    protocol: ProtocolName,
    fallback: Option<ProtocolName>,
    peer: PeerId,
    substream: SubstreamHandle,
) -> Step {
    let negotiate = seq![Action::NegotiateInbound { peer, substream }];
    match s {
        PeerState::Closed { .. } => (
            PeerState::Validating {
                direction: Direction::Inbound,
                protocol,
                fallback,
                outbound: OutboundState::Closed,
                inbound: InboundState::ReadingHandshake,
            },
            None,
            negotiate,
        ),
        PeerState::OutboundInitiated { substream: id } => (
            PeerState::Validating {
                direction: Direction::Outbound,
                protocol,
                fallback,
                outbound: OutboundState::OutboundInitiated { substream: id },
                inbound: InboundState::ReadingHandshake,
            },
            None,
            negotiate,
        ),
        PeerState::Validating {
            direction,
            protocol: p,
            fallback: f,
            outbound,
            inbound: InboundState::Closed,
        } => (
            PeerState::Validating {
                direction,
                protocol: p,
                fallback: f,
                outbound,
                inbound: InboundState::ReadingHandshake,
            },
            None,
            negotiate,
        ),
        _ => (s, None, seq![Action::CloseSubstream { substream }]),
    }
}

/// The outbound substream requested under `substream_id` opened.
pub open spec fn outbound_substream_step(
    s: PeerState,
    protocol: ProtocolName,
    fallback: Option<ProtocolName>,
    peer: PeerId,
    substream_id: SubstreamId,
    substream: SubstreamHandle,
) -> Step {
    let negotiate = seq![Action::NegotiateOutbound { peer, substream }];
    let discard = seq![Action::CloseSubstream { substream }];
    match s {
        PeerState::OutboundInitiated { substream: id } => if id == substream_id {
            (
                PeerState::Validating {
                    direction: Direction::Outbound,
                    protocol,
                    fallback,
                    outbound: OutboundState::Negotiating,
                    inbound: InboundState::Closed,
                },
                None,
                negotiate,
            )
        } else {
            (s, None, discard)
        },
        PeerState::Validating {
            direction,
            protocol: p,
            fallback: f,
            outbound: OutboundState::OutboundInitiated { .. },
            inbound,
        } => (
            PeerState::Validating {
                direction,
                protocol: p,
                fallback: f,
                outbound: OutboundState::Negotiating,
                inbound,
            },
            None,
            negotiate,
        ),
        PeerState::Closed { pending_open: Some(id) } => if id == substream_id {
            (PeerState::Closed { pending_open: None }, None, discard)
        } else {
            (s, None, discard)
        },
        _ => (s, None, discard),
    }
}

/// The outbound substream requested under `substream_id` failed to open.
pub open spec fn open_failure_step(
    s: PeerState,
    peer: PeerId,
    substream_id: SubstreamId,
    error: NotificationError,
) -> Step {
    match s {
        PeerState::OutboundInitiated { substream: id } => if id == substream_id {
            (PeerState::Closed { pending_open: None }, failure(peer, error), seq![])
        } else {
            (s, None, seq![])
        },
        PeerState::Closed { pending_open: Some(id) } => if id == substream_id {
            (PeerState::Closed { pending_open: None }, None, seq![])
        } else {
            (s, None, seq![])
        },
        PeerState::Validating {
            outbound: OutboundState::OutboundInitiated { substream: id },
            inbound,
            ..
        } => if id == substream_id {
            (PeerState::Closed { pending_open: None }, failure(peer, error), inbound_close(inbound))
        } else {
            (s, None, seq![])
        },
        _ => (s, None, seq![]),
    }
}

/// A `Validating` peer with the given halves: `Open` when both are open,
/// announcing the session; unchanged otherwise.
pub open spec fn completed(
    peer: PeerId,
    direction: Direction,
    protocol: ProtocolName,
    fallback: Option<ProtocolName>,
    outbound: OutboundState,
    inbound: InboundState,
) -> Step {
    let waiting = PeerState::Validating { direction, protocol, fallback, outbound, inbound };
    match outbound {
        OutboundState::Open { handshake, outbound: out } => match inbound {
            InboundState::Open { inbound: inb } => (
                PeerState::Open,
                Some(
                    NotificationEvent::NotificationStreamOpened {
                        peer,
                        protocol,
                        direction,
                        handshake,
                    },
                ),
                seq![Action::OpenSession { peer, inbound: inb, outbound: out }],
            ),
            _ => (waiting, None, seq![]),
        },
        _ => (waiting, None, seq![]),
    }
}

/// The driver reports the outcome of a handshake exchange.
pub open spec fn handshake_step(s: PeerState, peer: PeerId, event: HandshakeEvent) -> Step {
    match event {
        HandshakeEvent::InboundNegotiated { handshake, substream } => match s {
            PeerState::Validating {
                direction,
                protocol,
                fallback,
                outbound,
                inbound: InboundState::ReadingHandshake,
            } => (
                PeerState::Validating {
                    direction,
                    protocol,
                    fallback,
                    outbound,
                    inbound: InboundState::Validating { inbound: substream },
                },
                Some(NotificationEvent::ValidateSubstream { peer, protocol, handshake }),
                seq![],
            ),
            PeerState::Validating {
                direction,
                protocol,
                fallback,
                outbound,
                inbound: InboundState::SendingHandshake,
            } => completed(
                peer,
                direction,
                protocol,
                fallback,
                outbound,
                InboundState::Open { inbound: substream },
            ),
            _ => (s, None, seq![Action::CloseSubstream { substream }]),
        },
        HandshakeEvent::OutboundNegotiated { handshake, substream } => match s {
            PeerState::Validating {
                direction,
                protocol,
                fallback,
                outbound: OutboundState::Negotiating,
                inbound,
            } => completed(
                peer,
                direction,
                protocol,
                fallback,
                OutboundState::Open { handshake, outbound: substream },
                inbound,
            ),
            _ => (s, None, seq![Action::CloseSubstream { substream }]),
        },
        HandshakeEvent::NegotiationError { direction: failed } => match s {
            PeerState::Validating { direction, protocol, fallback, outbound, inbound } => match failed {
                Direction::Inbound => if outbound is Closed {
                    (
                        PeerState::Closed { pending_open: None },
                        failure(peer, NotificationError::Rejected),
                        inbound_close(inbound),
                    )
                } else {
                    (
                        PeerState::Validating {
                            direction,
                            protocol,
                            fallback,
                            outbound,
                            inbound: InboundState::Closed,
                        },
                        None,
                        inbound_close(inbound),
                    )
                },
                Direction::Outbound => if inbound is Closed {
                    (
                        PeerState::Closed { pending_open: None },
                        failure(peer, NotificationError::Rejected),
                        outbound_close(outbound),
                    )
                } else {
                    (
                        PeerState::Validating {
                            direction,
                            protocol,
                            fallback,
                            outbound: OutboundState::Closed,
                            inbound,
                        },
                        None,
                        outbound_close(outbound),
                    )
                },
            },
            _ => (s, None, seq![]),
        },
    }
}

/// Whether `s` awaits the application's verdict on an inbound handshake.
pub open spec fn awaits_validation(s: PeerState) -> bool {
    s is Validating && s->Validating_inbound is Validating
}

/// Whether the verdict takes a fresh substream id: an accepted inbound with no
/// outbound half asks for one.
pub open spec fn validation_allocates(
    s: PeerState,
    result: ValidationResult,
    connection_open: bool,
) -> bool {
    awaits_validation(s) && result == ValidationResult::Accept
        && s->Validating_outbound is Closed && connection_open
}

/// The application's verdict on the inbound handshake; `id` is the next fresh
/// substream id.
pub open spec fn validation_step(
    s: PeerState,
    peer: PeerId,
    result: ValidationResult,
    id: SubstreamId,
    connection_open: bool,
) -> Step {
    match s {
        PeerState::Validating {
            direction,
            protocol,
            fallback,
            outbound,
            inbound: InboundState::Validating { inbound },
        } => match result {
            ValidationResult::Reject => if connection_open {
                (
                    PeerState::Closed {
                        pending_open: match outbound {
                            OutboundState::OutboundInitiated { substream } => Some(substream),
                            _ => None,
                        },
                    },
                    failure(peer, NotificationError::Rejected),
                    seq![Action::CloseSubstream { substream: inbound }] + outbound_close(outbound),
                )
            } else {
                (
                    PeerState::Closed { pending_open: None },
                    None,
                    seq![Action::CloseSubstream { substream: inbound }] + outbound_close(outbound),
                )
            },
            ValidationResult::Accept => if outbound is Closed {
                if connection_open {
                    (
                        PeerState::Validating {
                            direction,
                            protocol,
                            fallback,
                            outbound: OutboundState::OutboundInitiated { substream: id },
                            inbound: InboundState::SendingHandshake,
                        },
                        None,
                        seq![
                            Action::SendHandshake { peer, substream: inbound },
                            Action::OpenSubstream { peer, substream_id: id },
                        ],
                    )
                } else {
                    (
                        PeerState::Closed { pending_open: None },
                        None,
                        seq![Action::CloseSubstream { substream: inbound }],
                    )
                }
            } else {
                (
                    PeerState::Validating {
                        direction,
                        protocol,
                        fallback,
                        outbound,
                        inbound: InboundState::SendingHandshake,
                    },
                    None,
                    seq![Action::SendHandshake { peer, substream: inbound }],
                )
            },
        },
        _ => (s, None, seq![]),
    }
}

/// What the verdict returns: `InvalidState` when no verdict is awaited,
/// `ConnectionClosed` when the connection is gone and the verdict is a
/// rejection, or an acceptance that needs an outbound half.
pub open spec fn validation_outcome(
    s: PeerState,
    result: ValidationResult,
    connection_open: bool,
) -> Result<(), Error> {
    if !awaits_validation(s) {
        Err(Error::InvalidState)
    } else if !connection_open && (result == ValidationResult::Reject
        || s->Validating_outbound is Closed) {
        Err(Error::ConnectionClosed)
    } else {
        Ok(())
    }
}

/// The application asks to close the session: only an open one is shut down.
pub open spec fn close_step(s: PeerState, peer: PeerId) -> Step {
    match s {
        PeerState::Open => (PeerState::Open, None, seq![Action::Shutdown { peer }]),
        _ => (s, None, seq![]),
    }
}

/// The open session's substreams are gone.
pub open spec fn shutdown_step(s: PeerState, peer: PeerId) -> Step {
    match s {
        PeerState::Open => (
            PeerState::Closed { pending_open: None },
            Some(NotificationEvent::NotificationStreamClosed { peer }),
            seq![],
        ),
        _ => (s, None, seq![]),
    }
}

// ---------------------------------------------------------------------------
// The order of events delivered to the application.
// ---------------------------------------------------------------------------

pub open spec fn event_peer(e: NotificationEvent) -> PeerId {
    match e {
        NotificationEvent::ValidateSubstream { peer, .. } => peer,
        NotificationEvent::NotificationStreamOpened { peer, .. } => peer,
        NotificationEvent::NotificationStreamClosed { peer } => peer,
        NotificationEvent::NotificationStreamOpenFailure { peer, .. } => peer,
    }
}

/// Whether, in `log`, the last opening or closing of `peer`'s session is an
/// opening.
pub open spec fn session_open(log: Seq<NotificationEvent>, peer: PeerId) -> bool
    decreases log.len(),
{
    if log.len() == 0 {
        false
    } else {
        match log.last() {
            NotificationEvent::NotificationStreamOpened { peer: p, .. } => if p == peer {
                true
            } else {
                session_open(log.drop_last(), peer)
            },
            NotificationEvent::NotificationStreamClosed { peer: p } => if p == peer {
                false
            } else {
                session_open(log.drop_last(), peer)
            },
            _ => session_open(log.drop_last(), peer),
        }
    }
}

/// Whether `e` may follow `prefix`: a session opens only when it is not open,
/// closes only when it is, and neither a validation request nor an open
/// failure concerns a peer whose session is open.
pub open spec fn event_allowed(prefix: Seq<NotificationEvent>, e: NotificationEvent) -> bool {
    match e {
        NotificationEvent::NotificationStreamClosed { peer } => session_open(prefix, peer),
        _ => !session_open(prefix, event_peer(e)),
    }
}

/// Every event of `log` is allowed after the events before it.
pub open spec fn well_ordered(log: Seq<NotificationEvent>) -> bool
    decreases log.len(),
{
    log.len() == 0 || (well_ordered(log.drop_last()) && event_allowed(log.drop_last(), log.last()))
}

pub open spec fn opt_seq<T>(o: Option<T>) -> Seq<T> {
    match o {
        Some(x) => seq![x],
        None => seq![],
    }
}

/// Every substream id that `s` records is below `n`.
pub open spec fn ids_below(s: PeerState, n: SubstreamId) -> bool {
    match s {
        PeerState::Closed { pending_open: Some(id) } => id < n,
        PeerState::OutboundInitiated { substream } => substream < n,
        PeerState::Validating { outbound: OutboundState::OutboundInitiated { substream }, .. } =>
            substream < n,
        _ => true,
    }
}

/// The substream id that `s` records, if any.
pub open spec fn recorded_id(s: PeerState) -> Option<SubstreamId> {
    match s {
        PeerState::Closed { pending_open } => pending_open,
        PeerState::OutboundInitiated { substream } => Some(substream),
        PeerState::Validating { outbound: OutboundState::OutboundInitiated { substream }, .. } =>
            Some(substream),
        _ => None,
    }
}

/// The id that `new` records is none, the one that `old` recorded, or fresh.
pub open spec fn ids_from(old: PeerState, new: PeerState, next: SubstreamId) -> bool {
    match recorded_id(new) {
        Some(id) => recorded_id(old) == Some(id) || next <= id,
        None => true,
    }
}

/// A step of `peer` from `old` keeps the event order: its event concerns
/// `peer`, and the peer's state is `Open` after an opening, not `Open` after a
/// closing, and otherwise as open as before; failures and validation requests
/// come only from states other than `Open`.
pub open spec fn step_consistent(old: PeerState, peer: PeerId, step: Step) -> bool {
    match step.1 {
        None => (old is Open) == (step.0 is Open),
        Some(e) => event_peer(e) == peer && match e {
            NotificationEvent::NotificationStreamOpened { .. } => !(old is Open) && step.0 is Open,
            NotificationEvent::NotificationStreamClosed { .. } => old is Open && !(step.0 is Open),
            _ => !(old is Open) && !(step.0 is Open),
        },
    }
}

// ---------------------------------------------------------------------------
// The peer table.
// ---------------------------------------------------------------------------

/// Mathematical view of a [`NotificationProtocol`]: the peer table, the events
/// and driver work not yet taken, the next fresh substream id, and every
/// event ever emitted.
pub struct ProtocolView {
    pub peers: Map<PeerId, PeerContext>,
    pub events: Seq<NotificationEvent>,
    pub actions: Seq<Action>,
    pub next_substream_id: SubstreamId,
    pub history: Seq<NotificationEvent>,
}

impl ProtocolView {
    pub open spec fn state(self, peer: PeerId) -> PeerState {
        self.peers[peer].state
    }

    /// The table invariant: the event history is well ordered, a peer's
    /// session is open in it exactly when the peer is in `Open`, every
    /// recorded substream id was allocated, and no two peers record the same
    /// id.
    pub open spec fn wf(self) -> bool {
        &&& well_ordered(self.history)
        &&& forall|p: PeerId|
            #![trigger session_open(self.history, p)]
            #![trigger self.peers.contains_key(p)]
            session_open(self.history, p) <==> (self.peers.contains_key(p) && self.peers[p].state is Open)
        &&& forall|p: PeerId|
            #![trigger self.peers.contains_key(p)]
            self.peers.contains_key(p) ==> ids_below(self.peers[p].state, self.next_substream_id)
        &&& forall|p: PeerId, q: PeerId|
            #![trigger self.peers.contains_key(p), self.peers.contains_key(q)]
            self.peers.contains_key(p) && self.peers.contains_key(q) && p != q
                && recorded_id(self.peers[p].state) is Some ==> recorded_id(self.peers[p].state)
                != recorded_id(self.peers[q].state)
    }

    /// The view after `peer` takes `step`, with `next` as the next fresh id.
    pub open spec fn apply(self, peer: PeerId, step: Step, next: SubstreamId) -> ProtocolView {
        ProtocolView {
            peers: self.peers.insert(peer, PeerContext { state: step.0 }),
            events: self.events + opt_seq(step.1),
            actions: self.actions + step.2,
            next_substream_id: next,
            history: self.history + opt_seq(step.1),
        }
    }

    /// The view after `peer` enters the table with no session.
    pub open spec fn with_peer(self, peer: PeerId) -> ProtocolView {
        ProtocolView {
            peers: self.peers.insert(
                peer,
                PeerContext { state: PeerState::Closed { pending_open: None } },
            ),
            ..self
        }
    }

    /// The view after `peer` leaves the table with the given event and work.
    pub open spec fn without(
        self,
        peer: PeerId,
        event: Option<NotificationEvent>,
        actions: Seq<Action>,
    ) -> ProtocolView {
        ProtocolView {
            peers: self.peers.remove(peer),
            events: self.events + opt_seq(event),
            actions: self.actions + actions,
            next_substream_id: self.next_substream_id,
            history: self.history + opt_seq(event),
        }
    }
}

proof fn lemma_history_push(h: Seq<NotificationEvent>, e: NotificationEvent)
    ensures
        well_ordered(h + seq![e]) == (well_ordered(h) && event_allowed(h, e)),
        forall|q: PeerId|
            #![trigger session_open(h + seq![e], q)]
            session_open(h + seq![e], q) == if event_peer(e) == q {
                match e {
                    NotificationEvent::NotificationStreamOpened { .. } => true,
                    NotificationEvent::NotificationStreamClosed { .. } => false,
                    _ => session_open(h, q),
                }
            } else {
                session_open(h, q)
            },
{
    let h2 = h + seq![e];
    assert(h2.drop_last() =~= h);
    assert(h2.last() == e);
    assert forall|q: PeerId| #[trigger]
        session_open(h2, q) == if event_peer(e) == q {
            match e {
                NotificationEvent::NotificationStreamOpened { .. } => true,
                NotificationEvent::NotificationStreamClosed { .. } => false,
                _ => session_open(h, q),
            }
        } else {
            session_open(h, q)
        } by {}
}

proof fn lemma_apply_wf(v: ProtocolView, peer: PeerId, step: Step, next: SubstreamId)
    requires
        v.wf(),
        v.peers.contains_key(peer),
        step_consistent(v.state(peer), peer, step),
        ids_below(step.0, next),
        ids_from(v.state(peer), step.0, v.next_substream_id),
        v.next_substream_id <= next,
    ensures
        v.apply(peer, step, next).wf(),
        v.peers.remove(peer).insert(peer, PeerContext { state: step.0 }) == v.peers.insert(
            peer,
            PeerContext { state: step.0 },
        ),
{
    assert(v.peers.remove(peer).insert(peer, PeerContext { state: step.0 }) =~= v.peers.insert(
        peer,
        PeerContext { state: step.0 },
    ));
    let w = v.apply(peer, step, next);
    match step.1 {
        Some(e) => {
            lemma_history_push(v.history, e);
        },
        None => {
            assert(w.history =~= v.history);
        },
    }
    assert forall|p: PeerId| #[trigger] w.peers.contains_key(p) implies ids_below(
        w.peers[p].state,
        next,
    ) by {
        if p != peer {
            assert(v.peers.contains_key(p));
        }
    }
    assert forall|p: PeerId|
        session_open(w.history, p) <==> (#[trigger] w.peers.contains_key(p)
            && w.peers[p].state is Open) by {
        assert(session_open(v.history, p) <==> (v.peers.contains_key(p)
            && v.peers[p].state is Open));
    }
}

pub(crate) proof fn lemma_with_peer_wf(v: ProtocolView, peer: PeerId)
    requires
        v.wf(),
        !v.peers.contains_key(peer),
    ensures
        v.with_peer(peer).wf(),
{
    let w = v.with_peer(peer);
    assert(!session_open(v.history, peer));
    assert forall|p: PeerId|
        session_open(w.history, p) <==> (#[trigger] w.peers.contains_key(p)
            && w.peers[p].state is Open) by {
        assert(session_open(v.history, p) <==> (v.peers.contains_key(p)
            && v.peers[p].state is Open));
    }
    assert forall|p: PeerId| #[trigger] w.peers.contains_key(p) implies ids_below(
        w.peers[p].state,
        w.next_substream_id,
    ) by {
        if p != peer {
            assert(v.peers.contains_key(p));
        }
    }
}

pub(crate) proof fn lemma_without_wf(
    v: ProtocolView,
    peer: PeerId,
    event: Option<NotificationEvent>,
    actions: Seq<Action>,
)
    requires
        v.wf(),
        v.peers.contains_key(peer),
        match event {
            None => !(v.state(peer) is Open),
            Some(e) => event_peer(e) == peer && match e {
                NotificationEvent::NotificationStreamClosed { .. } => v.state(peer) is Open,
                NotificationEvent::NotificationStreamOpenFailure { .. } => !(v.state(peer) is Open),
                _ => false,
            },
        },
    ensures
        v.without(peer, event, actions).wf(),
{
    let w = v.without(peer, event, actions);
    match event {
        Some(e) => {
            lemma_history_push(v.history, e);
        },
        None => {
            assert(w.history =~= v.history);
        },
    }
    assert forall|p: PeerId| #[trigger] w.peers.contains_key(p) implies ids_below(
        w.peers[p].state,
        w.next_substream_id,
    ) by {
        assert(v.peers.contains_key(p));
    }
    assert forall|p: PeerId|
        session_open(w.history, p) <==> (#[trigger] w.peers.contains_key(p)
            && w.peers[p].state is Open) by {
        assert(session_open(v.history, p) <==> (v.peers.contains_key(p)
            && v.peers[p].state is Open));
    }
}

/// The notification protocol: one [`PeerContext`] per connected peer, the
/// events for the application and the work for the driver.
pub struct NotificationProtocol {
    peers: HashMap<PeerId, PeerContext>,
    events: Vec<NotificationEvent>,
    actions: Vec<Action>,
    next_substream_id: SubstreamId,
    history: Ghost<Seq<NotificationEvent>>,
}

impl View for NotificationProtocol {
    type V = ProtocolView;

    closed spec fn view(&self) -> ProtocolView {
        ProtocolView {
            peers: self.peers@,
            events: self.events@,
            actions: self.actions@,
            next_substream_id: self.next_substream_id,
            history: self.history@,
        }
    }
}

fn open_substream_transition(
    s: PeerState,
    peer: PeerId,
    id: SubstreamId,
    connection_open: bool,
) -> (r: (PeerState, Option<NotificationEvent>, Vec<Action>))
    ensures
        (r.0, r.1, r.2@) == open_substream_step(s, peer, id, connection_open),
{
    match s {
        PeerState::Closed { pending_open: None } => {
            if connection_open {
                (
                    PeerState::OutboundInitiated { substream: id },
                    None,
                    vec![Action::OpenSubstream { peer, substream_id: id }],
                )
            } else {
                (
                    PeerState::Closed { pending_open: None },
                    Some(
                        NotificationEvent::NotificationStreamOpenFailure {
                            peer,
                            error: NotificationError::NoConnection,
                        },
                    ),
                    vec![],
                )
            }
        },
        other => (other, None, vec![]),
    }
}

fn close_inbound(i: InboundState) -> (r: Vec<Action>)
    ensures
        r@ == inbound_close(i),
{
    match i {
        InboundState::Validating { inbound } => vec![Action::CloseSubstream { substream: inbound }],
        InboundState::Open { inbound } => vec![Action::CloseSubstream { substream: inbound }],
        _ => vec![],
    }
}

fn close_outbound(o: OutboundState) -> (r: Vec<Action>)
    ensures
        r@ == outbound_close(o),
{
    match o {
        OutboundState::Open { outbound, .. } => vec![Action::CloseSubstream { substream: outbound }],
        _ => vec![],
    }
}

fn connection_closed_transition(s: PeerState, peer: PeerId) -> (r: (
    Option<NotificationEvent>,
    Vec<Action>,
))
    ensures
        (r.0, r.1@) == connection_closed_step(s, peer),
{
    match s {
        PeerState::Closed { .. } => (None, vec![]),
        PeerState::OutboundInitiated { .. } => (
            Some(
                NotificationEvent::NotificationStreamOpenFailure {
                    peer,
                    error: NotificationError::Rejected,
                },
            ),
            vec![],
        ),
        PeerState::Validating { outbound, inbound, .. } => {
            let mut actions = close_inbound(inbound);
            let mut rest = close_outbound(outbound);
            actions.append(&mut rest);
            (
                Some(
                    NotificationEvent::NotificationStreamOpenFailure {
                        peer,
                        error: NotificationError::Rejected,
                    },
                ),
                actions,
            )
        },
        PeerState::Open => (
            Some(NotificationEvent::NotificationStreamClosed { peer }),
            vec![Action::Shutdown { peer }],
        ),
    }
}

fn inbound_substream_transition(
    s: PeerState,
    protocol: ProtocolName,
    fallback: Option<ProtocolName>,
    peer: PeerId,
    substream: SubstreamHandle,
) -> (r: (PeerState, Option<NotificationEvent>, Vec<Action>))
    ensures
        (r.0, r.1, r.2@) == inbound_substream_step(s, protocol, fallback, peer, substream),
{
    match s {
        PeerState::Closed { .. } => (
            PeerState::Validating {
                direction: Direction::Inbound,
                protocol,
                fallback,
                outbound: OutboundState::Closed,
                inbound: InboundState::ReadingHandshake,
            },
            None,
            vec![Action::NegotiateInbound { peer, substream }],
        ),
        PeerState::OutboundInitiated { substream: id } => (
            PeerState::Validating {
                direction: Direction::Outbound,
                protocol,
                fallback,
                outbound: OutboundState::OutboundInitiated { substream: id },
                inbound: InboundState::ReadingHandshake,
            },
            None,
            vec![Action::NegotiateInbound { peer, substream }],
        ),
        PeerState::Validating {
            direction,
            protocol: p,
            fallback: f,
            outbound,
            inbound: InboundState::Closed,
        } => (
            PeerState::Validating {
                direction,
                protocol: p,
                fallback: f,
                outbound,
                inbound: InboundState::ReadingHandshake,
            },
            None,
            vec![Action::NegotiateInbound { peer, substream }],
        ),
        other => (other, None, vec![Action::CloseSubstream { substream }]),
    }
}

fn outbound_substream_transition(
    s: PeerState,
    protocol: ProtocolName,
    fallback: Option<ProtocolName>,
    peer: PeerId,
    substream_id: SubstreamId,
    substream: SubstreamHandle,
) -> (r: (PeerState, Option<NotificationEvent>, Vec<Action>))
    ensures
        (r.0, r.1, r.2@) == outbound_substream_step(
            s,
            protocol,
            fallback,
            peer,
            substream_id,
            substream,
        ),
{
    match s {
        PeerState::OutboundInitiated { substream: id } if id == substream_id => (
            PeerState::Validating {
                direction: Direction::Outbound,
                protocol,
                fallback,
                outbound: OutboundState::Negotiating,
                inbound: InboundState::Closed,
            },
            None,
            vec![Action::NegotiateOutbound { peer, substream }],
        ),
        PeerState::Validating {
            direction,
            protocol: p,
            fallback: f,
            outbound: OutboundState::OutboundInitiated { .. },
            inbound,
        } => (
            PeerState::Validating {
                direction,
                protocol: p,
                fallback: f,
                outbound: OutboundState::Negotiating,
                inbound,
            },
            None,
            vec![Action::NegotiateOutbound { peer, substream }],
        ),
        PeerState::Closed { pending_open: Some(id) } if id == substream_id => (
            PeerState::Closed { pending_open: None },
            None,
            vec![Action::CloseSubstream { substream }],
        ),
        other => (other, None, vec![Action::CloseSubstream { substream }]),
    }
}

fn open_failure_transition(
    s: PeerState,
    peer: PeerId,
    substream_id: SubstreamId,
    error: NotificationError,
) -> (r: (PeerState, Option<NotificationEvent>, Vec<Action>))
    ensures
        (r.0, r.1, r.2@) == open_failure_step(s, peer, substream_id, error),
{
    match s {
        PeerState::OutboundInitiated { substream: id } if id == substream_id => (
            PeerState::Closed { pending_open: None },
            Some(NotificationEvent::NotificationStreamOpenFailure { peer, error }),
            vec![],
        ),
        PeerState::Closed { pending_open: Some(id) } if id == substream_id => (
            PeerState::Closed { pending_open: None },
            None,
            vec![],
        ),
        PeerState::Validating {
            direction,
            protocol,
            fallback,
            outbound: OutboundState::OutboundInitiated { substream: id },
            inbound,
        } => {
            if id == substream_id {
                (
                    PeerState::Closed { pending_open: None },
                    Some(NotificationEvent::NotificationStreamOpenFailure { peer, error }),
                    close_inbound(inbound),
                )
            } else {
                (
                    PeerState::Validating {
                        direction,
                        protocol,
                        fallback,
                        outbound: OutboundState::OutboundInitiated { substream: id },
                        inbound,
                    },
                    None,
                    vec![],
                )
            }
        },
        other => (other, None, vec![]),
    }
}

fn completed_transition(
    peer: PeerId,
    direction: Direction,
    protocol: ProtocolName,
    fallback: Option<ProtocolName>,
    outbound: OutboundState,
    inbound: InboundState,
) -> (r: (PeerState, Option<NotificationEvent>, Vec<Action>))
    ensures
        (r.0, r.1, r.2@) == completed(peer, direction, protocol, fallback, outbound, inbound),
{
    match outbound {
        OutboundState::Open { handshake, outbound: out } => match inbound {
            InboundState::Open { inbound: inb } => (
                PeerState::Open,
                Some(
                    NotificationEvent::NotificationStreamOpened {
                        peer,
                        protocol,
                        direction,
                        handshake,
                    },
                ),
                vec![Action::OpenSession { peer, inbound: inb, outbound: out }],
            ),
            other_in => (
                PeerState::Validating {
                    direction,
                    protocol,
                    fallback,
                    outbound: OutboundState::Open { handshake, outbound: out },
                    inbound: other_in,
                },
                None,
                vec![],
            ),
        },
        other_out => (
            PeerState::Validating { direction, protocol, fallback, outbound: other_out, inbound },
            None,
            vec![],
        ),
    }
}

fn handshake_transition(s: PeerState, peer: PeerId, event: HandshakeEvent) -> (r: (
    PeerState,
    Option<NotificationEvent>,
    Vec<Action>,
))
    ensures
        (r.0, r.1, r.2@) == handshake_step(s, peer, event),
{
    match event {
        HandshakeEvent::InboundNegotiated { handshake, substream } => match s {
            PeerState::Validating {
                direction,
                protocol,
                fallback,
                outbound,
                inbound: InboundState::ReadingHandshake,
            } => (
                PeerState::Validating {
                    direction,
                    protocol,
                    fallback,
                    outbound,
                    inbound: InboundState::Validating { inbound: substream },
                },
                Some(NotificationEvent::ValidateSubstream { peer, protocol, handshake }),
                vec![],
            ),
            PeerState::Validating {
                direction,
                protocol,
                fallback,
                outbound,
                inbound: InboundState::SendingHandshake,
            } => completed_transition(
                peer,
                direction,
                protocol,
                fallback,
                outbound,
                InboundState::Open { inbound: substream },
            ),
            other => (other, None, vec![Action::CloseSubstream { substream }]),
        },
        HandshakeEvent::OutboundNegotiated { handshake, substream } => match s {
            PeerState::Validating {
                direction,
                protocol,
                fallback,
                outbound: OutboundState::Negotiating,
                inbound,
            } => completed_transition(
                peer,
                direction,
                protocol,
                fallback,
                OutboundState::Open { handshake, outbound: substream },
                inbound,
            ),
            other => (other, None, vec![Action::CloseSubstream { substream }]),
        },
        HandshakeEvent::NegotiationError { direction: failed } => match s {
            PeerState::Validating { direction, protocol, fallback, outbound, inbound } => match failed {
                Direction::Inbound => {
                    let partner_closed = matches!(outbound, OutboundState::Closed);
                    let actions = close_inbound(inbound);
                    if partner_closed {
                        (
                            PeerState::Closed { pending_open: None },
                            Some(
                                NotificationEvent::NotificationStreamOpenFailure {
                                    peer,
                                    error: NotificationError::Rejected,
                                },
                            ),
                            actions,
                        )
                    } else {
                        (
                            PeerState::Validating {
                                direction,
                                protocol,
                                fallback,
                                outbound,
                                inbound: InboundState::Closed,
                            },
                            None,
                            actions,
                        )
                    }
                },
                Direction::Outbound => {
                    let partner_closed = matches!(inbound, InboundState::Closed);
                    let actions = close_outbound(outbound);
                    if partner_closed {
                        (
                            PeerState::Closed { pending_open: None },
                            Some(
                                NotificationEvent::NotificationStreamOpenFailure {
                                    peer,
                                    error: NotificationError::Rejected,
                                },
                            ),
                            actions,
                        )
                    } else {
                        (
                            PeerState::Validating {
                                direction,
                                protocol,
                                fallback,
                                outbound: OutboundState::Closed,
                                inbound,
                            },
                            None,
                            actions,
                        )
                    }
                },
            },
            other => (other, None, vec![]),
        },
    }
}

fn validation_transition(
    s: PeerState,
    peer: PeerId,
    result: ValidationResult,
    id: SubstreamId,
    connection_open: bool,
) -> (r: (PeerState, Option<NotificationEvent>, Vec<Action>, Result<(), Error>))
    ensures
        (r.0, r.1, r.2@) == validation_step(s, peer, result, id, connection_open),
        r.3 == validation_outcome(s, result, connection_open),
{
    match s {
        PeerState::Validating {
            direction,
            protocol,
            fallback,
            outbound,
            inbound: InboundState::Validating { inbound },
        } => match result {
            ValidationResult::Reject => {
                let pending_open = match outbound {
                    OutboundState::OutboundInitiated { substream } => Some(substream),
                    _ => None,
                };
                let mut actions = vec![Action::CloseSubstream { substream: inbound }];
                let mut rest = close_outbound(outbound);
                actions.append(&mut rest);
                if connection_open {
                    (
                        PeerState::Closed { pending_open },
                        Some(
                            NotificationEvent::NotificationStreamOpenFailure {
                                peer,
                                error: NotificationError::Rejected,
                            },
                        ),
                        actions,
                        Ok(()),
                    )
                } else {
                    (PeerState::Closed { pending_open: None }, None, actions, Err(Error::ConnectionClosed))
                }
            },
            ValidationResult::Accept => match outbound {
                OutboundState::Closed => {
                    if connection_open {
                        (
                            PeerState::Validating {
                                direction,
                                protocol,
                                fallback,
                                outbound: OutboundState::OutboundInitiated { substream: id },
                                inbound: InboundState::SendingHandshake,
                            },
                            None,
                            vec![
                                Action::SendHandshake { peer, substream: inbound },
                                Action::OpenSubstream { peer, substream_id: id },
                            ],
                            Ok(()),
                        )
                    } else {
                        (
                            PeerState::Closed { pending_open: None },
                            None,
                            vec![Action::CloseSubstream { substream: inbound }],
                            Err(Error::ConnectionClosed),
                        )
                    }
                },
                other_out => (
                    PeerState::Validating {
                        direction,
                        protocol,
                        fallback,
                        outbound: other_out,
                        inbound: InboundState::SendingHandshake,
                    },
                    None,
                    vec![Action::SendHandshake { peer, substream: inbound }],
                    Ok(()),
                ),
            },
        },
        other => (other, None, vec![], Err(Error::InvalidState)),
    }
}

fn close_transition(s: PeerState, peer: PeerId) -> (r: (
    PeerState,
    Option<NotificationEvent>,
    Vec<Action>,
))
    ensures
        (r.0, r.1, r.2@) == close_step(s, peer),
{
    match s {
        PeerState::Open => (PeerState::Open, None, vec![Action::Shutdown { peer }]),
        other => (other, None, vec![]),
    }
}

fn shutdown_transition(s: PeerState, peer: PeerId) -> (r: (
    PeerState,
    Option<NotificationEvent>,
    Vec<Action>,
))
    ensures
        (r.0, r.1, r.2@) == shutdown_step(s, peer),
{
    match s {
        PeerState::Open => (
            PeerState::Closed { pending_open: None },
            Some(NotificationEvent::NotificationStreamClosed { peer }),
            vec![],
        ),
        other => (other, None, vec![]),
    }
}

impl NotificationProtocol {
    pub open spec fn wf(&self) -> bool {
        self@.wf()
    }

    /// An empty table.
    pub fn new() -> (r: NotificationProtocol)
        ensures
            r.wf(),
            r@.peers == Map::<PeerId, PeerContext>::empty(),
            r@.events == Seq::<NotificationEvent>::empty(),
            r@.actions == Seq::<Action>::empty(),
            r@.history == Seq::<NotificationEvent>::empty(),
            r@.next_substream_id == 0,
    {
        NotificationProtocol {
            peers: HashMap::new(),
            events: Vec::new(),
            actions: Vec::new(),
            next_substream_id: 0,
            history: Ghost(Seq::empty()),
        }
    }

    /// Puts `peer` back in the table in `state`, and records the event and the
    /// driver work of the transition.
    fn commit(
        &mut self,
        peer: PeerId,
        state: PeerState,
        event: Option<NotificationEvent>,
        actions: Vec<Action>,
    )
        ensures
            final(self)@ == (ProtocolView {
                peers: old(self)@.peers.insert(peer, PeerContext { state }),
                events: old(self)@.events + opt_seq(event),
                actions: old(self)@.actions + actions@,
                next_substream_id: old(self)@.next_substream_id,
                history: old(self)@.history + opt_seq(event),
            }),
    {
        self.peers.insert(peer, PeerContext { state });
        self.record(event, actions);
    }

    /// Records an event and driver work without touching the table.
    fn record(&mut self, event: Option<NotificationEvent>, actions: Vec<Action>)
        ensures
            final(self)@ == (ProtocolView {
                events: old(self)@.events + opt_seq(event),
                actions: old(self)@.actions + actions@,
                history: old(self)@.history + opt_seq(event),
                ..old(self)@
            }),
    {
        let mut actions = actions;
        match event {
            Some(e) => {
                self.history = Ghost(self.history@ + seq![e]);
                self.events.push(e);
            },
            None => {},
        }
        self.actions.append(&mut actions);
        proof {
            assert(self.events@ =~= old(self).events@ + opt_seq(event));
            assert(self.history@ =~= old(self).history@ + opt_seq(event));
        }
    }

    /// Takes `peer` out of the table; `None` if it is not there.
    fn take_peer(&mut self, peer: PeerId) -> (r: Option<PeerContext>)
        ensures
            match r {
                Some(c) => old(self)@.peers.contains_key(peer) && c == old(self)@.peers[peer]
                    && final(self)@ == (ProtocolView { peers: old(self)@.peers.remove(peer), ..old(self)@ }),
                None => !old(self)@.peers.contains_key(peer) && final(self)@ == old(self)@,
            },
    {
        let r = self.peers.remove(&peer);
        proof {
            if r is None {
                assert(self.peers@ =~= old(self).peers@);
            }
        }
        r
    }

    /// A local request to open the session with `peer`.
    ///
    /// From `Closed { pending_open: None }` the driver is asked to send
    /// `OpenSubstream` with a fresh id and the peer moves to
    /// `OutboundInitiated`, when `connection_open` tells that the connection
    /// handle still has a receiver; when it has none, the peer stays and the
    /// application is told `NoConnection`. From every other state the request
    /// changes nothing.
    pub fn on_open_substream(&mut self, peer: PeerId, connection_open: bool) -> (r: Result<(), Error>)
        requires
            old(self).wf(),
            old(self)@.next_substream_id < u64::MAX,
        ensures
            final(self).wf(),
            r is Ok <==> old(self)@.peers.contains_key(peer),
            r is Err ==> r == Err::<(), Error>(Error::PeerDoesntExist) && final(self)@ == old(self)@,
            r is Ok ==> final(self)@ == old(self)@.apply(
                peer,
                open_substream_step(old(self)@.state(peer), peer, old(self)@.next_substream_id, connection_open),
                if open_allocates(old(self)@.state(peer), connection_open) {
                    (old(self)@.next_substream_id + 1) as u64
                } else {
                    old(self)@.next_substream_id
                },
            ),
    {
        let ghost v = self@;
        match self.take_peer(peer) {
            None => Err(Error::PeerDoesntExist),
            Some(context) => {
                let fresh = connection_open && matches!(context.state, PeerState::Closed { pending_open: None });
                let id = self.next_substream_id;
                let (state, event, actions) = open_substream_transition(context.state, peer, id, connection_open);
                if fresh {
                    self.next_substream_id = id + 1;
                }
                self.commit(peer, state, event, actions);
                proof {
                    let next = if fresh { (id + 1) as u64 } else { id };
                    lemma_apply_wf(v, peer, open_substream_step(v.state(peer), peer, id, connection_open), next);
                }
                Ok(())
            },
        }
    }

    /// The transport reports a new connection to `peer`: the peer enters the
    /// table in `Closed { pending_open: None }`. A peer can have one entry
    /// only: a second connection is refused.
    pub fn on_connection_established(&mut self, peer: PeerId) -> (r: Result<(), Error>)
        requires
            old(self).wf(),
        ensures
            final(self).wf(),
            r is Ok <==> !old(self)@.peers.contains_key(peer),
            r is Err ==> r == Err::<(), Error>(Error::PeerAlreadyExists) && final(self)@ == old(self)@,
            r is Ok ==> final(self)@ == old(self)@.with_peer(peer),
    {
        if self.peers.contains_key(&peer) {
            return Err(Error::PeerAlreadyExists);
        }
        self.peers.insert(peer, PeerContext { state: PeerState::Closed { pending_open: None } });
        proof {
            lemma_with_peer_wf(old(self)@, peer);
        }
        Ok(())
    }

    /// The transport reports that the connection to `peer` is gone: the peer
    /// leaves the table. A session in progress fails with `Rejected`, an open
    /// one is announced closed, and the substreams the peer held are closed.
    pub fn on_connection_closed(&mut self, peer: PeerId) -> (r: Result<(), Error>)
        requires
            old(self).wf(),
        ensures
            final(self).wf(),
            r is Ok <==> old(self)@.peers.contains_key(peer),
            r is Err ==> r == Err::<(), Error>(Error::PeerDoesntExist) && final(self)@ == old(self)@,
            r is Ok ==> final(self)@ == old(self)@.without(
                peer,
                connection_closed_step(old(self)@.state(peer), peer).0,
                connection_closed_step(old(self)@.state(peer), peer).1,
            ),
    {
        let ghost v = self@;
        match self.take_peer(peer) {
            None => Err(Error::PeerDoesntExist),
            Some(context) => {
                let (event, actions) = connection_closed_transition(context.state, peer);
                self.record(event, actions);
                proof {
                    let st = connection_closed_step(v.state(peer), peer);
                    lemma_without_wf(v, peer, st.0, st.1);
                }
                Ok(())
            },
        }
    }

    /// The remote opened an inbound notification substream.
    ///
    /// A peer without a session starts reading the remote handshake; one with
    /// only an outbound half takes the inbound half as well. A peer that
    /// already has an inbound half, or an open session, keeps it, and the new
    /// substream is closed. For an unknown peer the substream is closed and
    /// `PeerDoesntExist` returned.
    pub fn on_inbound_substream(
        &mut self,
        protocol: ProtocolName,
        fallback: Option<ProtocolName>,
        peer: PeerId,
        substream: SubstreamHandle,
    ) -> (r: Result<(), Error>)
        requires
            old(self).wf(),
        ensures
            final(self).wf(),
            r is Ok <==> old(self)@.peers.contains_key(peer),
            r is Err ==> r == Err::<(), Error>(Error::PeerDoesntExist) && final(self)@ == (ProtocolView {
                actions: old(self)@.actions.push(Action::CloseSubstream { substream }),
                ..old(self)@
            }),
            r is Ok ==> final(self)@ == old(self)@.apply(
                peer,
                inbound_substream_step(old(self)@.state(peer), protocol, fallback, peer, substream),
                old(self)@.next_substream_id,
            ),
    {
        let ghost v = self@;
        match self.take_peer(peer) {
            None => {
                self.record(None, vec![Action::CloseSubstream { substream }]);
                proof {
                    assert(self@.actions =~= v.actions.push(Action::CloseSubstream { substream }));
                    assert(self@.events =~= v.events);
                    assert(self@.history =~= v.history);
                }
                Err(Error::PeerDoesntExist)
            },
            Some(context) => {
                let (state, event, actions) = inbound_substream_transition(
                    context.state,
                    protocol,
                    fallback,
                    peer,
                    substream,
                );
                self.commit(peer, state, event, actions);
                proof {
                    lemma_apply_wf(
                        v,
                        peer,
                        inbound_substream_step(v.state(peer), protocol, fallback, peer, substream),
                        v.next_substream_id,
                    );
                }
                Ok(())
            },
        }
    }

    /// The outbound substream requested under `substream_id` opened.
    ///
    /// It is negotiated when the peer waits for it; when it was left pending
    /// by a torn-down session the pending request is cleared; in every other
    /// case it is closed. For an unknown peer the substream is closed and
    /// `PeerDoesntExist` returned.
    pub fn on_outbound_substream(
        &mut self,
        protocol: ProtocolName,
        fallback: Option<ProtocolName>,
        peer: PeerId,
        substream_id: SubstreamId,
        substream: SubstreamHandle,
    ) -> (r: Result<(), Error>)
        requires
            old(self).wf(),
        ensures
            final(self).wf(),
            r is Ok <==> old(self)@.peers.contains_key(peer),
            r is Err ==> r == Err::<(), Error>(Error::PeerDoesntExist) && final(self)@ == (ProtocolView {
                actions: old(self)@.actions.push(Action::CloseSubstream { substream }),
                ..old(self)@
            }),
            r is Ok ==> final(self)@ == old(self)@.apply(
                peer,
                outbound_substream_step(
                    old(self)@.state(peer),
                    protocol,
                    fallback,
                    peer,
                    substream_id,
                    substream,
                ),
                old(self)@.next_substream_id,
            ),
    {
        let ghost v = self@;
        match self.take_peer(peer) {
            None => {
                self.record(None, vec![Action::CloseSubstream { substream }]);
                proof {
                    assert(self@.actions =~= v.actions.push(Action::CloseSubstream { substream }));
                    assert(self@.events =~= v.events);
                    assert(self@.history =~= v.history);
                }
                Err(Error::PeerDoesntExist)
            },
            Some(context) => {
                let (state, event, actions) = outbound_substream_transition(
                    context.state,
                    protocol,
                    fallback,
                    peer,
                    substream_id,
                    substream,
                );
                self.commit(peer, state, event, actions);
                proof {
                    lemma_apply_wf(
                        v,
                        peer,
                        outbound_substream_step(
                            v.state(peer),
                            protocol,
                            fallback,
                            peer,
                            substream_id,
                            substream,
                        ),
                        v.next_substream_id,
                    );
                }
                Ok(())
            },
        }
    }

    /// The outbound substream requested under `substream_id` could not be
    /// opened. A peer waiting for it fails with `error` (closing an inbound
    /// half it holds); a pending request is cleared without an event.
    pub fn on_substream_open_failure(
        &mut self,
        peer: PeerId,
        substream_id: SubstreamId,
        error: NotificationError,
    ) -> (r: Result<(), Error>)
        requires
            old(self).wf(),
        ensures
            final(self).wf(),
            r is Ok <==> old(self)@.peers.contains_key(peer),
            r is Err ==> r == Err::<(), Error>(Error::PeerDoesntExist) && final(self)@ == old(self)@,
            r is Ok ==> final(self)@ == old(self)@.apply(
                peer,
                open_failure_step(old(self)@.state(peer), peer, substream_id, error),
                old(self)@.next_substream_id,
            ),
    {
        let ghost v = self@;
        match self.take_peer(peer) {
            None => Err(Error::PeerDoesntExist),
            Some(context) => {
                let (state, event, actions) = open_failure_transition(
                    context.state,
                    peer,
                    substream_id,
                    error,
                );
                self.commit(peer, state, event, actions);
                proof {
                    lemma_apply_wf(
                        v,
                        peer,
                        open_failure_step(v.state(peer), peer, substream_id, error),
                        v.next_substream_id,
                    );
                }
                Ok(())
            },
        }
    }

    /// The driver reports the outcome of a handshake exchange with `peer`.
    ///
    /// A read inbound handshake is handed to the application for validation;
    /// a finished exchange opens its half, and the session opens when both
    /// halves are open. A failure closes its half, and fails the session with
    /// `Rejected` when the other half is closed too. A substream that nobody
    /// waits for is closed. For an unknown peer the substream the event
    /// carries is closed and `PeerDoesntExist` returned.
    pub fn on_handshake_event(&mut self, peer: PeerId, event: HandshakeEvent) -> (r: Result<
        (),
        Error,
    >)
        requires
            old(self).wf(),
        ensures
            final(self).wf(),
            r is Ok <==> old(self)@.peers.contains_key(peer),
            r is Err ==> r == Err::<(), Error>(Error::PeerDoesntExist) && final(self)@ == (ProtocolView {
                actions: old(self)@.actions + handshake_step(
                    PeerState::Closed { pending_open: None },
                    peer,
                    event,
                ).2,
                ..old(self)@
            }),
            r is Ok ==> final(self)@ == old(self)@.apply(
                peer,
                handshake_step(old(self)@.state(peer), peer, event),
                old(self)@.next_substream_id,
            ),
    {
        let ghost v = self@;
        match self.take_peer(peer) {
            None => {
                let (_, _, actions) = handshake_transition(
                    PeerState::Closed { pending_open: None },
                    peer,
                    event,
                );
                self.record(None, actions);
                proof {
                    assert(self@.events =~= v.events);
                    assert(self@.history =~= v.history);
                }
                Err(Error::PeerDoesntExist)
            },
            Some(context) => {
                let (state, ev, actions) = handshake_transition(context.state, peer, event);
                self.commit(peer, state, ev, actions);
                proof {
                    lemma_apply_wf(
                        v,
                        peer,
                        handshake_step(v.state(peer), peer, event),
                        v.next_substream_id,
                    );
                }
                Ok(())
            },
        }
    }

    /// The application's verdict on the inbound handshake of `peer`.
    ///
    /// `Reject` closes the substreams, fails the session with `Rejected`, and
    /// keeps an outbound request in flight as `pending_open`. `Accept` writes
    /// the local handshake back, and requests an outbound substream if there
    /// is none. When `connection_open` tells that the connection is gone, a
    /// rejection, or an acceptance that needs an outbound substream, closes
    /// the peer with no pending request and no event, and returns
    /// `ConnectionClosed`. With no verdict awaited nothing changes and
    /// `InvalidState` is returned.
    pub fn on_validation_result(
        &mut self,
        peer: PeerId,
        result: ValidationResult,
        connection_open: bool,
    ) -> (r: Result<(), Error>)
        requires
            old(self).wf(),
            old(self)@.next_substream_id < u64::MAX,
        ensures
            final(self).wf(),
            !old(self)@.peers.contains_key(peer) ==> r == Err::<(), Error>(Error::PeerDoesntExist)
                && final(self)@ == old(self)@,
            old(self)@.peers.contains_key(peer) ==> {
                &&& r == validation_outcome(old(self)@.state(peer), result, connection_open)
                &&& final(self)@ == old(self)@.apply(
                    peer,
                    validation_step(
                        old(self)@.state(peer),
                        peer,
                        result,
                        old(self)@.next_substream_id,
                        connection_open,
                    ),
                    if validation_allocates(old(self)@.state(peer), result, connection_open) {
                        (old(self)@.next_substream_id + 1) as u64
                    } else {
                        old(self)@.next_substream_id
                    },
                )
            },
    {
        let ghost v = self@;
        match self.take_peer(peer) {
            None => Err(Error::PeerDoesntExist),
            Some(context) => {
                let fresh = connection_open && result == ValidationResult::Accept && matches!(
                    context.state,
                    PeerState::Validating {
                        outbound: OutboundState::Closed,
                        inbound: InboundState::Validating { .. },
                        ..
                    }
                );
                let id = self.next_substream_id;
                let (state, event, actions, outcome) = validation_transition(
                    context.state,
                    peer,
                    result,
                    id,
                    connection_open,
                );
                if fresh {
                    self.next_substream_id = id + 1;
                }
                self.commit(peer, state, event, actions);
                proof {
                    let next = if fresh { (id + 1) as u64 } else { id };
                    lemma_apply_wf(
                        v,
                        peer,
                        validation_step(v.state(peer), peer, result, id, connection_open),
                        next,
                    );
                }
                outcome
            },
        }
    }

    /// The application asks to close the session with `peer`: an open session
    /// is shut down through the driver; in every other state, and for an
    /// unknown peer, the request is stale and changes nothing.
    pub fn close_substream(&mut self, peer: PeerId)
        requires
            old(self).wf(),
        ensures
            final(self).wf(),
            !old(self)@.peers.contains_key(peer) ==> final(self)@ == old(self)@,
            old(self)@.peers.contains_key(peer) ==> final(self)@ == old(self)@.apply(
                peer,
                close_step(old(self)@.state(peer), peer),
                old(self)@.next_substream_id,
            ),
    {
        let ghost v = self@;
        match self.take_peer(peer) {
            None => {},
            Some(context) => {
                let (state, event, actions) = close_transition(context.state, peer);
                self.commit(peer, state, event, actions);
                proof {
                    lemma_apply_wf(v, peer, close_step(v.state(peer), peer), v.next_substream_id);
                }
            },
        }
    }

    /// The driver reports that the open session with `peer` ended: the peer
    /// is closed and the application told so. In every other state, and for
    /// an unknown peer, nothing changes.
    pub fn on_shutdown(&mut self, peer: PeerId)
        requires
            old(self).wf(),
        ensures
            final(self).wf(),
            !old(self)@.peers.contains_key(peer) ==> final(self)@ == old(self)@,
            old(self)@.peers.contains_key(peer) ==> final(self)@ == old(self)@.apply(
                peer,
                shutdown_step(old(self)@.state(peer), peer),
                old(self)@.next_substream_id,
            ),
    {
        let ghost v = self@;
        match self.take_peer(peer) {
            None => {},
            Some(context) => {
                let (state, event, actions) = shutdown_transition(context.state, peer);
                self.commit(peer, state, event, actions);
                proof {
                    lemma_apply_wf(v, peer, shutdown_step(v.state(peer), peer), v.next_substream_id);
                }
            },
        }
    }

    /// The state of `peer`, if it is connected.
    pub fn peer_state(&self, peer: PeerId) -> (r: Option<&PeerState>)
        ensures
            match r {
                Some(st) => self@.peers.contains_key(peer) && *st == self@.state(peer),
                None => !self@.peers.contains_key(peer),
            },
    {
        match self.peers.get(&peer) {
            Some(context) => Some(&context.state),
            None => None,
        }
    }

    /// Whether `peer` has an entry in the table.
    pub fn contains_peer(&self, peer: PeerId) -> (r: bool)
        ensures
            r == self@.peers.contains_key(peer),
    {
        self.peers.contains_key(&peer)
    }

    /// The next fresh substream id.
    pub fn next_substream_id(&self) -> (r: SubstreamId)
        ensures
            r == self@.next_substream_id,
    {
        self.next_substream_id
    }

    /// Hands the events emitted so far to the application, oldest first.
    pub fn take_events(&mut self) -> (r: Vec<NotificationEvent>)
        ensures
            r@ == old(self)@.events,
            final(self)@ == (ProtocolView { events: Seq::empty(), ..old(self)@ }),
    {
        let mut taken = Vec::new();
        std::mem::swap(&mut taken, &mut self.events);
        taken
    }

    /// Hands the driver work requested so far to the driver, oldest first.
    pub fn take_actions(&mut self) -> (r: Vec<Action>)
        ensures
            r@ == old(self)@.actions,
            final(self)@ == (ProtocolView { actions: Seq::empty(), ..old(self)@ }),
    {
        let mut taken = Vec::new();
        std::mem::swap(&mut taken, &mut self.actions);
        taken
    }
}

} // verus!

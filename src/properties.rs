//! Properties of the notification state machine that hold over every input
//! and every trace.

use crate::notification::{
    close_step, connection_closed_step, ids_below, recorded_id, handshake_step, inbound_substream_step, lemma_with_peer_wf,
    lemma_without_wf, open_allocates, open_failure_step, open_substream_step,
    outbound_substream_step, session_open, shutdown_step, validation_step, event_allowed,
    well_ordered, Action, HandshakeEvent, NotificationError, NotificationEvent,
    NotificationProtocol, PeerState, ProtocolView, ValidationResult,
};
use crate::types::{PeerId, ProtocolName, SubstreamHandle, SubstreamId};
use vstd::prelude::*;

verus! {

/// The edges of the peer state graph: a closed peer may start a session, a
/// session in progress may close, move on or open, and an open session may
/// only stay open or close. In particular `Open` is never entered from
/// `Closed` or `OutboundInitiated`, and never left for a session in progress.
pub open spec fn may_follow(a: PeerState, b: PeerState) -> bool {
    match a {
        PeerState::Closed { .. } => !(b is Open),
        PeerState::OutboundInitiated { .. } => !(b is Open),
        PeerState::Validating { .. } => true,
        PeerState::Open => b is Open || b is Closed,
    }
}

/// Every operation moves a peer along an edge of the state graph.
pub proof fn lemma_transitions_follow_graph(
    s: PeerState,
    peer: PeerId,
    protocol: ProtocolName,
    fallback: Option<ProtocolName>,
    substream_id: SubstreamId,
    substream: SubstreamHandle,
    id: SubstreamId,
    connection_open: bool,
    error: NotificationError,
    event: HandshakeEvent,
    result: ValidationResult,
)
    ensures
        may_follow(s, open_substream_step(s, peer, id, connection_open).0),
        may_follow(s, inbound_substream_step(s, protocol, fallback, peer, substream).0),
        may_follow(
            s,
            outbound_substream_step(s, protocol, fallback, peer, substream_id, substream).0,
        ),
        may_follow(s, open_failure_step(s, peer, substream_id, error).0),
        may_follow(s, handshake_step(s, peer, event).0),
        may_follow(s, validation_step(s, peer, result, id, connection_open).0),
        may_follow(s, close_step(s, peer).0),
        may_follow(s, shutdown_step(s, peer).0),
{
}

/// In every reachable table, each emitted event is allowed after the ones
/// before it: a peer's session is announced open only while it is closed,
/// announced closed only right after exactly one opening, and neither an open
/// failure nor a validation request concerns a peer whose session is open.
/// A session is open in the history exactly when the peer is in `Open`.
pub proof fn lemma_event_order(n: &NotificationProtocol)
    requires
        n.wf(),
    ensures
        forall|i: int|
            0 <= i < n@.history.len() ==> #[trigger] event_allowed(
                n@.history.take(i),
                n@.history[i],
            ),
        forall|p: PeerId|
            #[trigger] session_open(n@.history, p) <==> (n@.peers.contains_key(p) && n@.state(
                p,
            ) is Open),
{
    lemma_well_ordered_prefixes(n@.history);
}

proof fn lemma_well_ordered_prefixes(h: Seq<NotificationEvent>)
    requires
        well_ordered(h),
    ensures
        forall|i: int| 0 <= i < h.len() ==> #[trigger] event_allowed(h.take(i), h[i]),
    decreases h.len(),
{
    if h.len() > 0 {
        let d = h.drop_last();
        lemma_well_ordered_prefixes(d);
        assert forall|i: int| 0 <= i < h.len() implies #[trigger] event_allowed(
            h.take(i),
            h[i],
        ) by {
            if i < h.len() - 1 {
                assert(d.take(i) =~= h.take(i));
                assert(event_allowed(d.take(i), d[i]));
            } else {
                assert(h.take(i) =~= d);
            }
        }
    }
}

/// In every reachable table, no two peers record the same substream id, and
/// every recorded id was allocated by the table.
pub proof fn lemma_recorded_ids_unique(n: &NotificationProtocol)
    requires
        n.wf(),
    ensures
        forall|p: PeerId, q: PeerId|
            #![trigger n@.peers.contains_key(p), n@.peers.contains_key(q)]
            n@.peers.contains_key(p) && n@.peers.contains_key(q) && p != q && recorded_id(
                n@.state(p),
            ) is Some ==> recorded_id(n@.state(p)) != recorded_id(n@.state(q)),
        forall|p: PeerId|
            #![trigger n@.peers.contains_key(p)]
            n@.peers.contains_key(p) ==> ids_below(n@.state(p), n@.next_substream_id),
{
}

/// Whether `s` holds an inbound half, in progress or open.
pub open spec fn holds_inbound(s: PeerState) -> bool {
    s is Open || (s is Validating && !(s->Validating_inbound is Closed))
}

/// A peer never holds two inbound substreams: one that arrives while the
/// peer holds an inbound half, or an open session, is closed and the state
/// kept.
pub proof fn lemma_single_inbound(
    s: PeerState,
    protocol: ProtocolName,
    fallback: Option<ProtocolName>,
    peer: PeerId,
    substream: SubstreamHandle,
)
    requires
        holds_inbound(s),
    ensures
        inbound_substream_step(s, protocol, fallback, peer, substream) == (
            s,
            None::<NotificationEvent>,
            seq![Action::CloseSubstream { substream }],
        ),
{
}

/// Whether `s` waits for the outbound substream requested under `id`.
pub open spec fn awaits_outbound(s: PeerState, id: SubstreamId) -> bool {
    (s == PeerState::OutboundInitiated { substream: id }) || (s is Validating
        && s->Validating_outbound is OutboundInitiated)
}

/// A peer never holds two outbound substreams: one that nobody waits for is
/// closed, and the peer keeps its state (or drops a pending request).
pub proof fn lemma_single_outbound(
    s: PeerState,
    protocol: ProtocolName,
    fallback: Option<ProtocolName>,
    peer: PeerId,
    substream_id: SubstreamId,
    substream: SubstreamHandle,
)
    requires
        !awaits_outbound(s, substream_id),
    ensures
        outbound_substream_step(s, protocol, fallback, peer, substream_id, substream).1 is None,
        outbound_substream_step(s, protocol, fallback, peer, substream_id, substream).2 == seq![
            Action::CloseSubstream { substream },
        ],
        outbound_substream_step(s, protocol, fallback, peer, substream_id, substream).0 == s
            || outbound_substream_step(s, protocol, fallback, peer, substream_id, substream).0
            == (PeerState::Closed { pending_open: None }),
{
}

/// A pending outbound request is cleared by the first event on its id,
/// whether the substream opens (it is closed) or fails; neither is reported.
pub proof fn lemma_pending_open_cleared(
    peer: PeerId,
    id: SubstreamId,
    protocol: ProtocolName,
    fallback: Option<ProtocolName>,
    substream: SubstreamHandle,
    error: NotificationError,
)
    ensures
        outbound_substream_step(
            PeerState::Closed { pending_open: Some(id) },
            protocol,
            fallback,
            peer,
            id,
            substream,
        ) == (
            PeerState::Closed { pending_open: None },
            None::<NotificationEvent>,
            seq![Action::CloseSubstream { substream }],
        ),
        open_failure_step(PeerState::Closed { pending_open: Some(id) }, peer, id, error) == (
            PeerState::Closed { pending_open: None },
            None::<NotificationEvent>,
            Seq::<Action>::empty(),
        ),
{
}

/// Asking to open a session while one exists, is in progress or is pending
/// changes nothing and reports nothing; a second request right after a
/// successful one changes nothing either.
pub proof fn lemma_open_substream_idempotent(
    s: PeerState,
    peer: PeerId,
    id: SubstreamId,
    next_id: SubstreamId,
    connection_open: bool,
    again_open: bool,
)
    ensures
        s != (PeerState::Closed { pending_open: None }) ==> {
            &&& open_substream_step(s, peer, id, connection_open) == (
                s,
                None::<NotificationEvent>,
                Seq::<Action>::empty(),
            )
            &&& !open_allocates(s, connection_open)
        },
        ({
            let first = open_substream_step(s, peer, id, connection_open).0;
            open_allocates(s, connection_open) ==> open_substream_step(
                first,
                peer,
                next_id,
                again_open,
            ) == (first, None::<NotificationEvent>, Seq::<Action>::empty())
        }),
{
}

/// Asking to close a session that is not open changes nothing and reports
/// nothing, however often it is asked.
pub proof fn lemma_close_substream_idempotent(s: PeerState, peer: PeerId)
    requires
        !(s is Open),
    ensures
        close_step(s, peer) == (s, None::<NotificationEvent>, Seq::<Action>::empty()),
{
}

/// A connection that closes and is established again leaves the peer in
/// `Closed { pending_open: None }`, with no session open in the history and
/// no event from the second connection.
pub proof fn lemma_reconnect_is_fresh(v: ProtocolView, peer: PeerId)
    requires
        v.wf(),
        v.peers.contains_key(peer),
    ensures
        ({
            let closed = v.without(
                peer,
                connection_closed_step(v.state(peer), peer).0,
                connection_closed_step(v.state(peer), peer).1,
            );
            let again = closed.with_peer(peer);
            &&& !closed.peers.contains_key(peer)
            &&& again.state(peer) == (PeerState::Closed { pending_open: None })
            &&& again.events == closed.events
            &&& again.history == closed.history
            &&& !session_open(again.history, peer)
            &&& again.wf()
        }),
{
    let st = connection_closed_step(v.state(peer), peer);
    let closed = v.without(peer, st.0, st.1);
    let again = closed.with_peer(peer);
    lemma_without_wf(v, peer, st.0, st.1);
    lemma_with_peer_wf(closed, peer);
}

} // verus!

use litep2p_core::notification::{
    Action, Error, HandshakeEvent, InboundState, NotificationError, NotificationEvent,
    NotificationProtocol, OutboundState, PeerState, ValidationResult,
};
use litep2p_core::{Direction, ProtocolName, SubstreamHandle};

const PEER: u64 = 7;

fn notif_1() -> ProtocolName {
    ProtocolName::new("/notif/1")
}

fn sub(id: u64) -> SubstreamHandle {
    SubstreamHandle { id }
}

fn register_peer(notif: &mut NotificationProtocol, peer: u64) {
    notif.on_connection_established(peer).unwrap();
    assert!(matches!(notif.peer_state(peer), Some(PeerState::Closed { .. })));
}

fn fresh() -> NotificationProtocol {
    let mut notif = NotificationProtocol::new();
    register_peer(&mut notif, PEER);
    notif
}

fn inbound_negotiated(handshake: Vec<u8>, id: u64) -> HandshakeEvent {
    HandshakeEvent::InboundNegotiated { handshake, substream: sub(id) }
}

fn outbound_negotiated(handshake: Vec<u8>, id: u64) -> HandshakeEvent {
    HandshakeEvent::OutboundNegotiated { handshake, substream: sub(id) }
}

/// Outbound half open, inbound half in the given state (0 to 3).
fn outbound_open_with_inbound(notif: &mut NotificationProtocol, inbound: usize) {
    notif.on_open_substream(PEER, true).unwrap();
    let id = match notif.peer_state(PEER) {
        Some(PeerState::OutboundInitiated { substream }) => *substream,
        state => panic!("invalid state: {state:?}"),
    };
    notif.on_outbound_substream(notif_1(), None, PEER, id, sub(1)).unwrap();
    notif.on_handshake_event(PEER, outbound_negotiated(vec![1, 2, 3, 4], 1)).unwrap();
    if inbound >= 1 {
        notif.on_inbound_substream(notif_1(), None, PEER, sub(2)).unwrap();
    }
    if inbound >= 2 {
        notif.on_handshake_event(PEER, inbound_negotiated(vec![1], 2)).unwrap();
    }
    if inbound >= 3 {
        notif.on_validation_result(PEER, ValidationResult::Accept, true).unwrap();
    }
}

/// Outbound half requested, inbound half in the given state (0 to 3).
fn outbound_initiated_with_inbound(notif: &mut NotificationProtocol, inbound: usize) {
    notif.on_open_substream(PEER, true).unwrap();
    notif.on_inbound_substream(notif_1(), None, PEER, sub(2)).unwrap();
    match inbound {
        0 => {
            notif
                .on_handshake_event(
                    PEER,
                    HandshakeEvent::NegotiationError { direction: Direction::Inbound },
                )
                .unwrap();
        }
        1 => {}
        _ => {
            notif.on_handshake_event(PEER, inbound_negotiated(vec![1], 2)).unwrap();
            if inbound == 3 {
                notif.on_validation_result(PEER, ValidationResult::Accept, true).unwrap();
            }
        }
    }
}

/// Outbound half negotiating, inbound half in the given state (0 to 3).
fn outbound_negotiating_with_inbound(notif: &mut NotificationProtocol, inbound: usize) {
    notif.on_open_substream(PEER, true).unwrap();
    let id = notif.next_substream_id() - 1;
    if inbound >= 1 {
        notif.on_inbound_substream(notif_1(), None, PEER, sub(2)).unwrap();
    }
    notif.on_outbound_substream(notif_1(), None, PEER, id, sub(1)).unwrap();
    if inbound >= 2 {
        notif.on_handshake_event(PEER, inbound_negotiated(vec![1], 2)).unwrap();
    }
    if inbound >= 3 {
        notif.on_validation_result(PEER, ValidationResult::Accept, true).unwrap();
    }
}

fn reach_open(notif: &mut NotificationProtocol) {
    notif.on_inbound_substream(notif_1(), None, PEER, sub(2)).unwrap();
    notif.on_handshake_event(PEER, inbound_negotiated(vec![1, 3, 3, 7], 2)).unwrap();
    notif.on_validation_result(PEER, ValidationResult::Accept, true).unwrap();
    let id = notif.next_substream_id() - 1;
    notif.on_outbound_substream(notif_1(), None, PEER, id, sub(1)).unwrap();
    notif.on_handshake_event(PEER, outbound_negotiated(vec![1, 2, 3, 4], 1)).unwrap();
    notif.on_handshake_event(PEER, inbound_negotiated(vec![], 2)).unwrap();
    assert_eq!(notif.peer_state(PEER), Some(&PeerState::Open));
}

fn connection_closed(notif: &mut NotificationProtocol, expected: Option<NotificationEvent>) {
    notif.take_events();
    notif.on_connection_closed(PEER).unwrap();
    let events = notif.take_events();
    match expected {
        Some(event) => assert_eq!(events, vec![event]),
        None => assert!(events.is_empty()),
    }
    assert!(!notif.contains_peer(PEER));
}

fn rejected() -> Option<NotificationEvent> {
    Some(NotificationEvent::NotificationStreamOpenFailure {
        peer: PEER,
        error: NotificationError::Rejected,
    })
}

#[test]
fn connection_closed_for_outbound_open_substream() {
    for i in 0..4 {
        let mut notif = fresh();
        outbound_open_with_inbound(&mut notif, i);
        assert!(matches!(
            notif.peer_state(PEER),
            Some(PeerState::Validating { outbound: OutboundState::Open { .. }, .. })
        ));
        connection_closed(&mut notif, rejected());
    }
}

#[test]
fn connection_closed_for_outbound_initiated_substream() {
    for i in 0..4 {
        let mut notif = fresh();
        outbound_initiated_with_inbound(&mut notif, i);
        assert!(matches!(
            notif.peer_state(PEER),
            Some(PeerState::Validating { outbound: OutboundState::OutboundInitiated { .. }, .. })
        ));
        connection_closed(&mut notif, rejected());
    }
}

#[test]
fn connection_closed_for_outbound_negotiated_substream() {
    for i in 0..4 {
        let mut notif = fresh();
        outbound_negotiating_with_inbound(&mut notif, i);
        assert!(matches!(
            notif.peer_state(PEER),
            Some(PeerState::Validating { outbound: OutboundState::Negotiating, .. })
        ));
        connection_closed(&mut notif, rejected());
    }
}

#[test]
fn connection_closed_for_open_notification_stream() {
    let mut notif = fresh();
    reach_open(&mut notif);
    connection_closed(
        &mut notif,
        Some(NotificationEvent::NotificationStreamClosed { peer: PEER }),
    );
}

#[test]
fn connection_closed_for_initiated_substream() {
    let mut notif = fresh();
    notif.on_open_substream(PEER, true).unwrap();
    assert!(matches!(notif.peer_state(PEER), Some(PeerState::OutboundInitiated { .. })));
    connection_closed(&mut notif, rejected());
}

fn open_substream(notif: &mut NotificationProtocol, succeeds: bool) {
    notif.take_actions();
    notif.on_open_substream(PEER, true).unwrap();
    let sent = notif
        .take_actions()
        .iter()
        .any(|a| matches!(a, Action::OpenSubstream { peer: PEER, .. }));
    assert!(sent == succeeds);
}

#[test]
fn open_substream_connection_closed() {
    let mut notif = fresh();
    open_substream(&mut notif, true);
}

#[test]
fn open_substream_already_initiated() {
    let mut notif = fresh();
    notif.on_open_substream(PEER, true).unwrap();
    open_substream(&mut notif, false);
}

#[test]
fn open_substream_already_open() {
    let mut notif = fresh();
    reach_open(&mut notif);
    open_substream(&mut notif, false);
}

#[test]
fn open_substream_under_validation() {
    for i in 0..4 {
        let mut notif = fresh();
        outbound_open_with_inbound(&mut notif, i);
        open_substream(&mut notif, false);

        let mut notif = fresh();
        outbound_initiated_with_inbound(&mut notif, i);
        open_substream(&mut notif, false);

        let mut notif = fresh();
        outbound_negotiating_with_inbound(&mut notif, i);
        open_substream(&mut notif, false);
    }
    for i in 1..4 {
        let mut notif = fresh();
        notif.on_inbound_substream(notif_1(), None, PEER, sub(2)).unwrap();
        if i >= 2 {
            notif.on_handshake_event(PEER, inbound_negotiated(vec![1], 2)).unwrap();
        }
        if i >= 3 {
            notif.on_validation_result(PEER, ValidationResult::Accept, true).unwrap();
        }
        open_substream(&mut notif, false);
    }
}

#[test]
fn open_substream_no_connection() {
    let mut notif = NotificationProtocol::new();
    assert!(notif.on_open_substream(99, true).is_err());
}

#[test]
fn remote_opens_multiple_inbound_substreams() {
    let mut notif = fresh();
    notif.on_inbound_substream(notif_1(), None, PEER, sub(1)).unwrap();

    let expected = PeerState::Validating {
        direction: Direction::Inbound,
        protocol: ProtocolName::new("/notif/1"),
        fallback: None,
        outbound: OutboundState::Closed,
        inbound: InboundState::ReadingHandshake,
    };
    assert_eq!(notif.peer_state(PEER), Some(&expected));

    notif.take_actions();
    notif.on_inbound_substream(notif_1(), None, PEER, sub(2)).unwrap();
    assert_eq!(notif.take_actions(), vec![Action::CloseSubstream { substream: sub(2) }]);
    assert_eq!(notif.peer_state(PEER), Some(&expected));
}

#[test]
fn pending_outbound_tracked_correctly() {
    let mut notif = fresh();
    let first = notif.next_substream_id();

    notif.on_open_substream(PEER, true).unwrap();
    assert_eq!(notif.peer_state(PEER), Some(&PeerState::OutboundInitiated { substream: first }));

    notif.on_inbound_substream(notif_1(), None, PEER, sub(1)).unwrap();
    assert!(matches!(
        notif.peer_state(PEER),
        Some(PeerState::Validating {
            direction: Direction::Outbound,
            outbound: OutboundState::OutboundInitiated { .. },
            inbound: InboundState::ReadingHandshake,
            ..
        })
    ));

    notif.on_handshake_event(PEER, inbound_negotiated(vec![1, 3, 3, 7], 1)).unwrap();
    assert!(matches!(
        notif.peer_state(PEER),
        Some(PeerState::Validating {
            direction: Direction::Outbound,
            outbound: OutboundState::OutboundInitiated { .. },
            inbound: InboundState::Validating { .. },
            ..
        })
    ));

    notif.on_validation_result(PEER, ValidationResult::Reject, true).unwrap();
    assert_eq!(
        notif.peer_state(PEER),
        Some(&PeerState::Closed { pending_open: Some(first) })
    );

    notif.on_outbound_substream(notif_1(), None, PEER, first, sub(2)).unwrap();
    assert_eq!(notif.peer_state(PEER), Some(&PeerState::Closed { pending_open: None }));
}

#[test]
fn inbound_accepted_outbound_fails_to_open() {
    let mut notif = fresh();
    notif.on_inbound_substream(notif_1(), None, PEER, sub(1)).unwrap();
    assert!(matches!(
        notif.peer_state(PEER),
        Some(PeerState::Validating {
            direction: Direction::Inbound,
            outbound: OutboundState::Closed,
            inbound: InboundState::ReadingHandshake,
            ..
        })
    ));

    notif.on_handshake_event(PEER, inbound_negotiated(vec![1, 3, 3, 7], 1)).unwrap();
    assert!(matches!(
        notif.peer_state(PEER),
        Some(PeerState::Validating {
            direction: Direction::Inbound,
            outbound: OutboundState::Closed,
            inbound: InboundState::Validating { .. },
            ..
        })
    ));

    // the validation request reaches the application
    assert_eq!(
        notif.take_events(),
        vec![NotificationEvent::ValidateSubstream {
            peer: PEER,
            protocol: notif_1(),
            handshake: vec![1, 3, 3, 7],
        }]
    );

    // the connection is gone before the verdict arrives
    assert!(notif.on_validation_result(PEER, ValidationResult::Accept, false).is_err());
    assert_eq!(notif.peer_state(PEER), Some(&PeerState::Closed { pending_open: None }));
    assert!(notif.take_events().is_empty());
}

#[test]
fn open_substream_on_closed_connection() {
    let mut notif = fresh();
    notif.on_open_substream(PEER, false).unwrap();
    assert_eq!(notif.peer_state(PEER), Some(&PeerState::Closed { pending_open: None }));
    match notif.take_events().as_slice() {
        [NotificationEvent::NotificationStreamOpenFailure { error, .. }] => {
            assert_eq!(*error, NotificationError::NoConnection);
        }
        events => panic!("invalid event received: {events:?}"),
    }
}

#[test]
fn close_already_closed_connection() {
    let mut notif = fresh();
    notif.on_open_substream(PEER, true).unwrap();
    let id = notif.next_substream_id() - 1;
    notif.on_outbound_substream(notif_1(), None, PEER, id, sub(1)).unwrap();
    notif.on_handshake_event(PEER, outbound_negotiated(vec![1, 2, 3, 4], 1)).unwrap();
    notif.on_inbound_substream(notif_1(), None, PEER, sub(2)).unwrap();
    notif.on_handshake_event(PEER, inbound_negotiated(vec![1], 2)).unwrap();
    notif.on_validation_result(PEER, ValidationResult::Accept, true).unwrap();
    notif.take_events();
    notif.on_handshake_event(PEER, inbound_negotiated(vec![1], 2)).unwrap();

    match notif.take_events().as_slice() {
        [NotificationEvent::NotificationStreamOpened { handshake, direction, .. }] => {
            assert_eq!(handshake, &vec![1, 2, 3, 4]);
            assert_eq!(*direction, Direction::Outbound);
        }
        _ => panic!("invalid event received"),
    }

    // the session ends on its own, then a stale close request arrives
    notif.on_shutdown(PEER);
    notif.close_substream(PEER);

    assert_eq!(notif.peer_state(PEER), Some(&PeerState::Closed { pending_open: None }));
    assert_eq!(
        notif.take_events(),
        vec![NotificationEvent::NotificationStreamClosed { peer: PEER }]
    );
    assert!(!notif.take_actions().contains(&Action::Shutdown { peer: PEER }));
}

use litep2p_core::notification::{
    Action, Error, HandshakeEvent, NotificationError, NotificationEvent, NotificationProtocol,
    PeerState, ValidationResult,
};
use litep2p_core::webrtc::{
    deliverable_payload, input_error_is_fatal, output_action, poll_delay_micros, ChannelDataStep,
    ChannelTable,
    ConnectionError, OutputAction, OutputKind, SubstreamContext,
};
use litep2p_core::{Direction, ProtocolName, SubstreamHandle};

fn notif_1() -> ProtocolName {
    ProtocolName::new("/notif/1")
}

fn sub(id: u64) -> SubstreamHandle {
    SubstreamHandle { id }
}

#[test]
fn duplicate_connection_is_refused() {
    let mut notif = NotificationProtocol::new();
    notif.on_connection_established(1).unwrap();
    assert_eq!(notif.on_connection_established(1), Err(Error::PeerAlreadyExists));
}

#[test]
fn unknown_peer_errors() {
    let mut notif = NotificationProtocol::new();
    assert_eq!(notif.on_connection_closed(3), Err(Error::PeerDoesntExist));
    assert_eq!(
        notif.on_validation_result(3, ValidationResult::Accept, true),
        Err(Error::PeerDoesntExist)
    );
    assert_eq!(
        notif.on_inbound_substream(notif_1(), None, 3, sub(5)),
        Err(Error::PeerDoesntExist)
    );
    assert_eq!(notif.take_actions(), vec![Action::CloseSubstream { substream: sub(5) }]);
}

#[test]
fn verdict_without_request_is_invalid_state() {
    let mut notif = NotificationProtocol::new();
    notif.on_connection_established(1).unwrap();
    assert_eq!(
        notif.on_validation_result(1, ValidationResult::Accept, true),
        Err(Error::InvalidState)
    );
    assert_eq!(notif.peer_state(1), Some(&PeerState::Closed { pending_open: None }));
}

#[test]
fn reconnect_gives_fresh_peer() {
    let mut notif = NotificationProtocol::new();
    notif.on_connection_established(1).unwrap();
    notif.on_open_substream(1, true).unwrap();
    notif.on_connection_closed(1).unwrap();
    notif.take_events();
    notif.on_connection_established(1).unwrap();
    assert_eq!(notif.peer_state(1), Some(&PeerState::Closed { pending_open: None }));
    assert!(notif.take_events().is_empty());
}

#[test]
fn open_failure_clears_pending_and_reports_nothing() {
    let mut notif = NotificationProtocol::new();
    notif.on_connection_established(1).unwrap();
    notif.on_open_substream(1, true).unwrap();
    notif.on_inbound_substream(notif_1(), None, 1, sub(1)).unwrap();
    notif
        .on_handshake_event(1, HandshakeEvent::InboundNegotiated { handshake: vec![9], substream: sub(1) })
        .unwrap();
    notif.on_validation_result(1, ValidationResult::Reject, true).unwrap();
    assert_eq!(notif.peer_state(1), Some(&PeerState::Closed { pending_open: Some(0) }));
    notif.take_events();
    notif.on_substream_open_failure(1, 0, NotificationError::DialFailure).unwrap();
    assert_eq!(notif.peer_state(1), Some(&PeerState::Closed { pending_open: None }));
    assert!(notif.take_events().is_empty());
}

#[test]
fn open_failure_of_requested_substream_is_reported() {
    let mut notif = NotificationProtocol::new();
    notif.on_connection_established(1).unwrap();
    notif.on_open_substream(1, true).unwrap();
    notif.on_substream_open_failure(1, 0, NotificationError::DialFailure).unwrap();
    assert_eq!(
        notif.take_events(),
        vec![NotificationEvent::NotificationStreamOpenFailure {
            peer: 1,
            error: NotificationError::DialFailure
        }]
    );
}

#[test]
fn negotiation_error_with_no_partner_rejects() {
    let mut notif = NotificationProtocol::new();
    notif.on_connection_established(1).unwrap();
    notif.on_inbound_substream(notif_1(), None, 1, sub(1)).unwrap();
    notif
        .on_handshake_event(1, HandshakeEvent::NegotiationError { direction: Direction::Inbound })
        .unwrap();
    assert_eq!(notif.peer_state(1), Some(&PeerState::Closed { pending_open: None }));
    assert_eq!(
        notif.take_events(),
        vec![NotificationEvent::NotificationStreamOpenFailure {
            peer: 1,
            error: NotificationError::Rejected
        }]
    );
}

#[test]
fn session_opens_once_and_failure_is_never_reported_while_open() {
    let mut notif = NotificationProtocol::new();
    notif.on_connection_established(1).unwrap();
    notif.on_inbound_substream(notif_1(), None, 1, sub(1)).unwrap();
    notif
        .on_handshake_event(1, HandshakeEvent::InboundNegotiated { handshake: vec![5], substream: sub(1) })
        .unwrap();
    notif.on_validation_result(1, ValidationResult::Accept, true).unwrap();
    notif.on_outbound_substream(notif_1(), None, 1, 0, sub(2)).unwrap();
    notif
        .on_handshake_event(1, HandshakeEvent::OutboundNegotiated { handshake: vec![6], substream: sub(2) })
        .unwrap();
    notif
        .on_handshake_event(1, HandshakeEvent::InboundNegotiated { handshake: vec![], substream: sub(1) })
        .unwrap();
    assert_eq!(notif.peer_state(1), Some(&PeerState::Open));
    assert!(notif.take_actions().contains(&Action::OpenSession {
        peer: 1,
        inbound: sub(1),
        outbound: sub(2)
    }));
    // stale events while open report nothing to the application
    notif.take_events();
    notif.on_open_substream(1, false).unwrap();
    notif.on_substream_open_failure(1, 0, NotificationError::Rejected).unwrap();
    assert!(notif.take_events().is_empty());
    notif.close_substream(1);
    assert_eq!(notif.take_actions(), vec![Action::Shutdown { peer: 1 }]);
    notif.on_shutdown(1);
    assert_eq!(
        notif.take_events(),
        vec![NotificationEvent::NotificationStreamClosed { peer: 1 }]
    );
}

#[test]
fn poll_delay_is_clamped() {
    assert_eq!(poll_delay_micros(0), 1_000);
    assert_eq!(poll_delay_micros(999), 1_000);
    assert_eq!(poll_delay_micros(25_000), 25_000);
    assert_eq!(poll_delay_micros(100_000), 100_000);
    assert_eq!(poll_delay_micros(5_000_000), 100_000);
}

#[test]
fn outputs_map_to_actions() {
    assert_eq!(output_action(OutputKind::Transmit), OutputAction::Transmit);
    assert_eq!(output_action(OutputKind::Timeout), OutputAction::Wait);
    assert_eq!(
        output_action(OutputKind::IceDisconnected),
        OutputAction::Fail(ConnectionError::Disconnected)
    );
    assert_eq!(
        output_action(OutputKind::Connected),
        OutputAction::Fail(ConnectionError::InvalidState)
    );
    assert_eq!(output_action(OutputKind::ChannelData), OutputAction::Demultiplex);
    assert_eq!(output_action(OutputKind::ChannelClose), OutputAction::ForgetChannel);
    assert_eq!(output_action(OutputKind::ChannelOpen), OutputAction::Continue);
}

#[test]
fn only_rejected_input_is_tolerated() {
    assert!(!input_error_is_fatal(ConnectionError::InputRejected));
    assert!(input_error_is_fatal(ConnectionError::InvalidData));
}

#[test]
fn empty_payloads_are_dropped() {
    assert_eq!(deliverable_payload(None), None);
    assert_eq!(deliverable_payload(Some(vec![])), None);
    assert_eq!(deliverable_payload(Some(vec![1, 2])), Some(vec![1, 2]));
}

#[test]
fn channels_are_mapped_to_fresh_substreams() {
    let mut rtc = str0m::Rtc::new(std::time::Instant::now());
    let mut api = rtc.sdp_api();
    let a = api.add_channel("a".to_string());
    let b = api.add_channel("b".to_string());
    let (tx_a, _rx_a) = tokio::sync::mpsc::channel::<Vec<u8>>(4);
    let (tx_b, _rx_b) = tokio::sync::mpsc::channel::<Vec<u8>>(4);

    let mut table = ChannelTable::new(10);
    assert_eq!(table.route(&a), None);
    assert!(table.sender(&a).is_err());
    assert_eq!(table.register(a, tx_a), 10);
    assert_eq!(table.register(b, tx_b), 11);
    assert_eq!(table.route(&a), Some(10));
    assert_eq!(table.route(&b), Some(11));
    assert_eq!(table.channel_of(11), Ok(b));
    assert!(table.sender(&b).is_ok());
    assert_eq!(table.channel_of(12), Err(ConnectionError::ChannelDoesntExist));

    assert_eq!(table.remove_channel(&a), Some(10));
    assert_eq!(table.route(&a), None);
    assert_eq!(table.channel_of(10), Err(ConnectionError::ChannelDoesntExist));
    assert_eq!(table.route(&b), Some(11));
    assert_eq!(table.remove_channel(&a), None);

    let (tx, _rx) = tokio::sync::mpsc::channel::<Vec<u8>>(1);
    let context = SubstreamContext::new(b, tx);
    assert_eq!(context.channel_id, b);
}

#[test]
fn channel_data_is_demultiplexed() {
    let mut rtc = str0m::Rtc::new(std::time::Instant::now());
    let mut api = rtc.sdp_api();
    let a = api.add_channel("a".to_string());
    let (tx, _rx) = tokio::sync::mpsc::channel::<Vec<u8>>(4);

    let mut table = ChannelTable::new(0);
    assert_eq!(table.on_channel_data(&a, None), ChannelDataStep::Ignore);
    assert_eq!(table.on_channel_data(&a, Some(vec![])), ChannelDataStep::Ignore);
    assert_eq!(
        table.on_channel_data(&a, Some(vec![1, 2])),
        ChannelDataStep::Negotiate { request: vec![1, 2] }
    );
    let id = table.register(a, tx);
    assert_eq!(
        table.on_channel_data(&a, Some(vec![3])),
        ChannelDataStep::Forward { substream: id, payload: vec![3] }
    );
    assert_eq!(table.on_channel_data(&a, Some(vec![])), ChannelDataStep::Ignore);
}

#[test]
fn reject_after_connection_loss_keeps_nothing_pending() {
    let mut notif = NotificationProtocol::new();
    notif.on_connection_established(1).unwrap();
    notif.on_open_substream(1, true).unwrap();
    notif.on_inbound_substream(notif_1(), None, 1, sub(1)).unwrap();
    notif
        .on_handshake_event(1, HandshakeEvent::InboundNegotiated { handshake: vec![9], substream: sub(1) })
        .unwrap();
    notif.take_events();
    assert_eq!(
        notif.on_validation_result(1, ValidationResult::Reject, false),
        Err(Error::ConnectionClosed)
    );
    assert_eq!(notif.peer_state(1), Some(&PeerState::Closed { pending_open: None }));
    assert!(notif.take_events().is_empty());
    assert!(notif.take_actions().contains(&Action::CloseSubstream { substream: sub(1) }));
}

#[test]
fn close_request_outside_open_changes_nothing() {
    let mut notif = NotificationProtocol::new();
    notif.on_connection_established(1).unwrap();
    notif.close_substream(1);
    notif.close_substream(1);
    assert_eq!(notif.peer_state(1), Some(&PeerState::Closed { pending_open: None }));
    notif.on_open_substream(1, true).unwrap();
    notif.take_actions();
    notif.close_substream(1);
    assert!(matches!(notif.peer_state(1), Some(PeerState::OutboundInitiated { .. })));
    assert!(notif.take_actions().is_empty());
    assert!(notif.take_events().is_empty());
    notif.close_substream(42);
    assert!(!notif.contains_peer(42));
}

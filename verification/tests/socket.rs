use client_binding::client_binding_bootstrap::{
    ClientBindingBootstrapInputV1, ClientBindingEpoch, CLIENT_BINDING_BOOTSTRAP_SUB_ID,
    CLIENT_BINDING_STATUS_SUB_ID,
};
use client_binding::client_binding_status_session::{
    ClientBindingStatusSession, CurrentProjection, ProjectionUpdate, StatusOutcome,
};
use client_binding::commands::Command;
use client_binding::community::CommunityId;
use client_binding::connection::{
    close_connection, disconnect, disconnect_all, dispatch_message, open_after_handshake,
    open_connection, register_connection, upgrade_header, Connection, ConnectionAction,
    ConnectionEvent, Incoming, OpenOutcome, OpenRequest,
};
use client_binding::counter::advance;
use client_binding::event::{PublicKey, RelayKeys};
use client_binding::messages::{
    egress_check, guarded_message, outbound_message, send_result, socket_message, write_result, CloseFramePayload,
    ConnectFailure, EgressCheck, OutboundMessage, SendProgress, SocketMessage, WebSocketMessage,
    WriteOutcome,
};
use client_binding::projection::ProjectionState;
use client_binding::registry::{candidate_id, ConnectionRegistry};
use client_binding::rounds::ConnectRounds;

const NOW: u64 = 2_000_000_000;

fn epoch(seed: u8) -> ClientBindingEpoch {
    ClientBindingEpoch::from_random_bytes([seed; 32])
}

fn current(author: &str, fresh_until: u64, epoch: &ClientBindingEpoch) -> CurrentProjection {
    CurrentProjection {
        event_author_pubkey: author.repeat(32),
        fresh_until,
        connection_epoch: epoch.as_str().to_owned(),
    }
}

fn shown(state: &mut ProjectionState<&'static str>) -> Option<CurrentProjection> {
    state.current_projection(NOW).0
}

fn session(seed: u8) -> ClientBindingStatusSession {
    let relay = RelayKeys::from_secret_bytes([1; 32]).expect("secret").public_key();
    ClientBindingStatusSession::new(relay, PublicKey { bytes: [0xab; 32] }, epoch(seed))
}

// The router here is the table of the webview's commands, the only one that this
// library has.
#[test]
fn stock_router_does_not_register_lifecycle_surface() {
    assert!(Command::from_name("lifecycle_router").is_none());
    assert!(Command::from_name("/operator/v1/lifecycle").is_none());
}

#[test]
fn commands_are_found_by_name() {
    assert_eq!(Command::from_name("connect"), Some(Command::Connect));
    assert_eq!(Command::from_name("send"), Some(Command::Send));
    assert_eq!(Command::from_name("disconnect"), Some(Command::Disconnect));
    assert_eq!(Command::from_name("disconnect_all"), Some(Command::DisconnectAll));
    assert_eq!(Command::from_name("current_projection"), Some(Command::CurrentProjection));
    assert_eq!(Command::from_name("Connect"), None);
    assert_eq!(Command::from_name(""), None);
}

#[test]
fn projection_generation_and_owner_epoch_fence_late_updates() {
    let mut manager: ProjectionState<&'static str> = ProjectionState::new();
    let (stale_generation, none) = manager.begin_projection_attempt();
    assert!(none.is_none());
    let (current_generation, _) = manager.begin_projection_attempt();
    let stale_epoch = epoch(0x11);
    let current_epoch = epoch(0x22);

    assert!(!manager.activate_projection(stale_generation, 1, stale_epoch.clone(), "one"));
    assert!(manager.activate_projection(current_generation, 2, current_epoch.clone(), "two"));
    let projection = current("11", u64::MAX, &current_epoch);

    assert!(manager
        .apply_projection_update(1, &stale_epoch, ProjectionUpdate::Current(projection.clone()))
        .is_none());
    assert!(shown(&mut manager).is_none());
    assert!(manager
        .apply_projection_update(2, &stale_epoch, ProjectionUpdate::Current(projection.clone()))
        .is_none());
    assert!(shown(&mut manager).is_none());
    assert_eq!(
        manager.apply_projection_update(
            2,
            &current_epoch,
            ProjectionUpdate::Current(projection.clone())
        ),
        Some(Some(projection.clone()))
    );
    assert_eq!(shown(&mut manager), Some(projection));

    let (next_generation, put_out) = manager.begin_projection_attempt();
    assert_eq!(put_out, Some("two"));
    assert!(shown(&mut manager).is_none());
    assert!(manager.activate_projection(next_generation, 3, epoch(0x33), "three"));
    assert!(manager
        .apply_projection_update(
            2,
            &current_epoch,
            ProjectionUpdate::Current(current("22", u64::MAX, &current_epoch)),
        )
        .is_none());
    assert!(shown(&mut manager).is_none());
}

#[test]
fn projection_owner_can_be_told_and_released() {
    let mut state: ProjectionState<&'static str> = ProjectionState::new();
    assert!(state.owner_channel().is_none());
    let (generation, _) = state.begin_projection_attempt();
    assert_eq!(generation, 1);
    assert!(state.activate_projection(generation, 5, epoch(0x44), "five"));
    assert_eq!(state.owner_channel(), Some(&"five"));
    assert!(state.is_owner(5, &epoch(0x44)));
    assert!(!state.is_owner(5, &epoch(0x45)));
    assert!(state.owner_epoch(5).expect("owner").is_same(&epoch(0x44)));
    assert!(state.owner_epoch(6).is_none());

    let projection = current("aa", NOW, &epoch(0x44));
    state.apply_projection_update(5, &epoch(0x44), ProjectionUpdate::Current(projection.clone()));
    assert!(state
        .apply_projection_update(5, &epoch(0x44), ProjectionUpdate::Unchanged)
        .is_none());
    assert_eq!(state.current_projection(NOW - 1), (Some(projection), false));
    assert_eq!(state.current_projection(NOW), (None, true));
    assert_eq!(state.current_projection(NOW), (None, false));
    assert_eq!(
        state.apply_projection_update(5, &epoch(0x44), ProjectionUpdate::Clear),
        Some(None)
    );

    assert_eq!(state.clear_projection_if_owner(6, &epoch(0x44)), None);
    assert_eq!(state.clear_projection_if_owner(5, &epoch(0x45)), None);
    assert_eq!(state.clear_projection_if_owner(5, &epoch(0x44)), Some("five"));
    assert_eq!(state.clear_projection_if_owner(5, &epoch(0x44)), None);
    assert_eq!(state.invalidate_projection(), None);
}

#[test]
fn invalidated_projection_refuses_the_old_attempt() {
    let mut state: ProjectionState<&'static str> = ProjectionState::new();
    let (generation, _) = state.begin_projection_attempt();
    assert!(state.activate_projection(generation, 1, epoch(1), "one"));
    assert_eq!(state.invalidate_projection(), Some("one"));
    assert!(!state.activate_projection(generation, 1, epoch(1), "one"));
    assert!(state
        .apply_projection_update(
            1,
            &epoch(1),
            ProjectionUpdate::Current(current("aa", u64::MAX, &epoch(1)))
        )
        .is_none());
    assert!(shown(&mut state).is_none());
}

#[test]
fn counters_start_over() {
    assert_eq!(advance(0), 1);
    assert_eq!(advance(u64::MAX - 1), u64::MAX);
    assert_eq!(advance(u64::MAX), 0);
}

#[test]
fn stale_task_cannot_remove_reused_connection_id() {
    let mut registry: ConnectionRegistry<&'static str> = ConnectionRegistry::new();
    let old = registry.insert(9, "old");
    let current = registry.insert(9, "current");
    assert_ne!(old, current);

    registry.remove_if_current(9, old);
    assert_eq!(registry.find(9), Ok(&"current"));
    registry.remove_if_current(9, current);
    assert!(!registry.contains(9));
}

#[test]
fn registry_finds_and_removes() {
    let mut registry: ConnectionRegistry<u8> = ConnectionRegistry::new();
    registry.insert(0, 10);
    registry.insert(u32::MAX, 20);
    assert!(registry.contains(0));
    assert_eq!(registry.find(u32::MAX), Ok(&20));
    assert_eq!(registry.find(7), Err("WebSocket connection 7 not found".to_string()));
    assert_eq!(
        registry.find(1_234_567_890),
        Err("WebSocket connection 1234567890 not found".to_string())
    );
    assert_eq!(registry.remove(0), Some(10));
    assert_eq!(registry.remove(0), None);
    registry.insert(4, 40);
    let mut drained = registry.drain();
    drained.sort();
    assert_eq!(drained, vec![(4, 40), (u32::MAX, 20)]);
    assert!(registry.drain().is_empty());
}

#[test]
fn identifiers_are_the_lowest_bits_of_a_draw() {
    assert_eq!(candidate_id(0x1234_5678_9abc_def0_0011_2233_4455_6677), 0x4455_6677);
    assert_eq!(candidate_id(u128::MAX), u32::MAX);
    assert_eq!(candidate_id(1 << 32), 0);
    let mut registry: ConnectionRegistry<()> = ConnectionRegistry::new();
    registry.insert(5, ());
    assert_eq!(registry.free_candidate((7 << 32) + 5), None);
    assert_eq!(registry.free_candidate((7 << 32) + 6), Some(6));
}

#[test]
fn drawn_identifiers_are_free_and_differ() {
    let mut registry: ConnectionRegistry<()> = ConnectionRegistry::new();
    assert_eq!(registry.draw_connection_id(0), None);
    let mut seen = Vec::new();
    for _ in 0..20 {
        let id = registry.draw_connection_id(8).expect("a free identifier");
        assert!(!registry.contains(id));
        registry.insert(id, ());
        seen.push(id);
    }
    seen.sort();
    seen.dedup();
    assert_eq!(seen.len(), 20);
}

#[test]
fn messages_are_carried_and_given_unchanged() {
    let close = || Some(CloseFramePayload { code: 4001, reason: "bye".to_string() });
    assert_eq!(
        socket_message(WebSocketMessage::Text("a".to_string())),
        SocketMessage::Text("a".to_string())
    );
    assert_eq!(socket_message(WebSocketMessage::Binary(vec![1])), SocketMessage::Binary(vec![1]));
    assert_eq!(socket_message(WebSocketMessage::Ping(vec![2])), SocketMessage::Ping(vec![2]));
    assert_eq!(socket_message(WebSocketMessage::Pong(vec![3])), SocketMessage::Pong(vec![3]));
    assert_eq!(socket_message(WebSocketMessage::Close(close())), SocketMessage::Close(close()));
    assert_eq!(
        outbound_message(SocketMessage::Text("a".to_string())),
        OutboundMessage::Text("a".to_string())
    );
    assert_eq!(outbound_message(SocketMessage::Binary(vec![1])), OutboundMessage::Binary(vec![1]));
    assert_eq!(outbound_message(SocketMessage::Ping(vec![2])), OutboundMessage::Ping(vec![2]));
    assert_eq!(outbound_message(SocketMessage::Pong(vec![3])), OutboundMessage::Pong(vec![3]));
    assert_eq!(outbound_message(SocketMessage::Close(close())), OutboundMessage::Close(close()));
    assert_eq!(outbound_message(SocketMessage::Close(None)), OutboundMessage::Close(None));
    assert_eq!(
        outbound_message(SocketMessage::Frame),
        OutboundMessage::Error("unexpected raw WebSocket frame".to_string())
    );
}

#[test]
fn egress_looks_at_text_and_binary() {
    let text = WebSocketMessage::Text("secret".to_string());
    assert!(matches!(egress_check(&text), EgressCheck::Text("secret", "websocket text frame")));
    let binary = WebSocketMessage::Binary(vec![7]);
    assert!(matches!(
        egress_check(&binary),
        EgressCheck::Binary([7], "websocket binary frame")
    ));
    assert!(matches!(egress_check(&WebSocketMessage::Ping(vec![7])), EgressCheck::Exempt));
    assert!(matches!(egress_check(&WebSocketMessage::Pong(vec![7])), EgressCheck::Exempt));
    assert!(matches!(egress_check(&WebSocketMessage::Close(None)), EgressCheck::Exempt));
}

#[test]
fn send_results_have_their_texts() {
    let error = |progress| send_result(progress).unwrap_err();
    assert_eq!(error(SendProgress::Refused("no".to_string())), "no");
    assert_eq!(error(SendProgress::NotFound("gone".to_string())), "gone");
    assert_eq!(error(SendProgress::QueueTimedOut), "WebSocket send queue timed out");
    assert_eq!(error(SendProgress::QueueClosed), "WebSocket connection closed");
    assert_eq!(error(SendProgress::ReplyTimedOut), "WebSocket send timed out");
    assert_eq!(error(SendProgress::ReplyClosed), "WebSocket connection closed");
    assert_eq!(error(SendProgress::Replied(Err("x".to_string()))), "x");
    assert_eq!(send_result(SendProgress::Replied(Ok(()))), Ok(()));
    assert_eq!(write_result(WriteOutcome::Written), Ok(()));
    assert_eq!(
        write_result(WriteOutcome::TimedOut),
        Err("WebSocket send timed out".to_string())
    );
    assert_eq!(write_result(WriteOutcome::Failed("io".to_string())), Err("io".to_string()));
}

#[test]
fn connect_failures_have_their_texts() {
    assert_eq!(ConnectFailure::InvalidRequest("bad".to_string()).into_message(), "bad");
    assert_eq!(ConnectFailure::InvalidHeader.into_message(), "invalid WebSocket request");
    assert_eq!(ConnectFailure::Cancelled.into_message(), "WebSocket connection cancelled");
    assert_eq!(ConnectFailure::TimedOut.into_message(), "WebSocket connection timed out");
    assert_eq!(ConnectFailure::Failed("tls".to_string()).into_message(), "tls");
}

fn receive(connection: &mut Connection, message: SocketMessage) -> ConnectionAction {
    connection.on_event(ConnectionEvent::Received(Incoming::Message(message)), NOW)
}

#[test]
fn reserved_frames_are_swallowed_without_an_eligible_session() {
    let mut connection = Connection::new(None);
    let mut registry: ConnectionRegistry<&'static str> = ConnectionRegistry::new();
    let mut state: ProjectionState<&'static str> = ProjectionState::new();
    let token = registry.insert(42, "socket");
    let mut delivered = 0;
    let mut ended = false;
    let bootstrap = format!("[\"EVENT\",\"{CLIENT_BINDING_BOOTSTRAP_SUB_ID}\"]");
    let status = format!("[\"EVENT\",\"{CLIENT_BINDING_STATUS_SUB_ID}\",\"malformed\"]");
    for message in [
        SocketMessage::Text(bootstrap),
        SocketMessage::Binary(status.into_bytes()),
        SocketMessage::Text("ordinary".to_string()),
        SocketMessage::Close(None),
    ] {
        match receive(&mut connection, message) {
            ConnectionAction::Continue => {}
            ConnectionAction::Deliver(OutboundMessage::Text(text)) => {
                assert_eq!(text, "ordinary");
                delivered += 1;
            }
            ConnectionAction::DeliverLast(OutboundMessage::Close(None)) => {
                delivered += 1;
                ended = true;
            }
            _ => panic!("unexpected action"),
        }
    }
    assert_eq!(
        delivered, 2,
        "only the ordinary text and terminal close reach raw delivery"
    );
    assert!(ended);
    let closed = close_connection(&mut connection, &mut registry, &mut state, 42, token);
    assert!(closed.channel.is_none());
    assert!(!closed.tell_tracker);
    assert!(!registry.contains(42));
}

#[test]
fn binary_that_is_no_text_is_delivered() {
    let mut connection = Connection::new(Some(session(0x31)));
    assert!(matches!(
        receive(&mut connection, SocketMessage::Binary(vec![0xff, 0xfe])),
        ConnectionAction::Deliver(OutboundMessage::Binary(bytes)) if bytes == vec![0xff, 0xfe]
    ));
    assert!(matches!(
        receive(&mut connection, SocketMessage::Binary("\u{e9}".to_string().into_bytes())),
        ConnectionAction::Deliver(OutboundMessage::Binary(bytes)) if bytes == vec![0xc3, 0xa9]
    ));
    assert!(matches!(
        receive(&mut connection, SocketMessage::Frame),
        ConnectionAction::DeliverLast(OutboundMessage::Error(_))
    ));
}

#[test]
fn connection_folds_reserved_frames_of_its_session() {
    let relay = RelayKeys::from_secret_bytes([1; 32]).expect("secret");
    let author = PublicKey { bytes: [0xab; 32] };
    let event = ClientBindingBootstrapInputV1::new(
        CommunityId::from_bytes([9; 16]),
        author,
        epoch(0x32),
        NOW,
    )
    .expect("input")
    .sign_with_relay_keys(&relay)
    .expect("signs");
    let bootstrap = format!(
        "[\"EVENT\",\"{CLIENT_BINDING_BOOTSTRAP_SUB_ID}\",{{\"id\":\"{}\",\"pubkey\":\"{}\",\"created_at\":{NOW},\"kind\":24245,\"tags\":[],\"content\":{},\"sig\":\"{}\"}}]",
        hex::encode(event.id),
        event.pubkey.to_hex(),
        serde_json::to_string(&event.content).expect("content"),
        hex::encode(event.sig),
    );
    let status = relay.sign(24244, "s", NOW).expect("signs");
    let status = format!(
        "[\"EVENT\",\"{CLIENT_BINDING_STATUS_SUB_ID}\",{{\"id\":\"{}\",\"pubkey\":\"{}\",\"created_at\":{NOW},\"kind\":24244,\"tags\":[],\"content\":\"s\",\"sig\":\"{}\"}}]",
        hex::encode(status.id),
        status.pubkey.to_hex(),
        hex::encode(status.sig),
    );

    let mut connection = Connection::new(Some(session(0x32)));
    assert!(matches!(
        receive(&mut connection, SocketMessage::Binary(bootstrap.into_bytes())),
        ConnectionAction::OpenTracker(_)
    ));
    assert!(matches!(
        receive(&mut connection, SocketMessage::Text(status)),
        ConnectionAction::TrackStatus(_)
    ));
    let outcome = StatusOutcome::Accepted(Some(NOW + 5));
    assert!(matches!(
        connection.on_event(ConnectionEvent::Outcome(outcome), NOW),
        ConnectionAction::Apply(ProjectionUpdate::Current(shown)) if shown.fresh_until == NOW + 5
    ));
    assert_eq!(connection.expiry_delay(NOW), Some(5));
    assert_eq!(connection.expiry_delay(NOW + 9), Some(0));
    assert!(matches!(
        connection.on_event(ConnectionEvent::Expired, NOW + 4),
        ConnectionAction::Apply(ProjectionUpdate::Unchanged)
    ));
    assert!(connection.session().expect("session").is_expired(NOW + 5));
    assert!(matches!(
        connection.on_event(ConnectionEvent::Expired, NOW + 5),
        ConnectionAction::ApplyExpired(ProjectionUpdate::Clear)
    ));
    assert_eq!(connection.expiry_delay(NOW), None);
    assert!(connection.session().expect("session").has_tracker());

    let mut registry: ConnectionRegistry<()> = ConnectionRegistry::new();
    let mut state: ProjectionState<&'static str> = ProjectionState::new();
    let token = registry.insert(3, ());
    let (generation, _) = state.begin_projection_attempt();
    assert!(state.activate_projection(generation, 3, epoch(0x32), "channel"));
    let closed = close_connection(&mut connection, &mut registry, &mut state, 3, token);
    assert_eq!(closed.channel, Some("channel"));
    assert!(closed.tell_tracker);
    assert!(state.owner_channel().is_none());
    assert!(!registry.contains(3));
}

#[test]
fn connection_ends_when_the_socket_or_the_requests_end() {
    let mut connection = Connection::new(None);
    assert!(matches!(
        connection.on_event(ConnectionEvent::Cancelled, NOW),
        ConnectionAction::WriteLast(SocketMessage::Close(Some(CloseFramePayload { code: 1000, reason })))
            if reason == "disconnect"
    ));
    assert!(matches!(
        connection.on_event(ConnectionEvent::Requested(None), NOW),
        ConnectionAction::End
    ));
    assert!(matches!(
        connection.on_event(
            ConnectionEvent::Requested(Some(SocketMessage::Text("m".to_string()))),
            NOW
        ),
        ConnectionAction::Write(SocketMessage::Text(text)) if text == "m"
    ));
    assert!(matches!(
        connection.on_event(ConnectionEvent::Written(WriteOutcome::Written), NOW),
        ConnectionAction::Reply(Ok(()))
    ));
    assert!(matches!(
        connection.on_event(ConnectionEvent::Written(WriteOutcome::TimedOut), NOW),
        ConnectionAction::Reply(Err(error)) if error == "WebSocket send timed out"
    ));
    assert!(matches!(
        connection.on_event(ConnectionEvent::Received(Incoming::Failed("io".to_string())), NOW),
        ConnectionAction::DeliverLast(OutboundMessage::Error(error)) if error == "io"
    ));
    assert!(matches!(
        connection.on_event(ConnectionEvent::Received(Incoming::End), NOW),
        ConnectionAction::DeliverLast(OutboundMessage::Close(None))
    ));
    assert!(matches!(
        connection.on_event(ConnectionEvent::Expired, NOW),
        ConnectionAction::Continue
    ));
    assert!(matches!(
        connection.on_event(ConnectionEvent::Outcome(StatusOutcome::Rejected), NOW),
        ConnectionAction::Continue
    ));
}

#[test]
fn upgrade_header_carries_the_epoch() {
    assert!(upgrade_header(&None).is_none());
    assert_eq!(
        upgrade_header(&Some(session(0x33))),
        Some(("x-buzz-client-binding-epoch-v1", "33".repeat(32).as_str()))
    );
}

#[test]
fn opened_connection_keeps_its_session_only_as_owner() {
    let mut state: ProjectionState<&'static str> = ProjectionState::new();
    let (stale, _) = state.begin_projection_attempt();
    let (latest, _) = state.begin_projection_attempt();

    let opened = open_connection(&mut state, 1, Some(session(1)), Some("one"), Some(stale));
    assert!(opened.connection.session().is_none());
    assert!(opened.tell_channel);

    let opened = open_connection(&mut state, 2, Some(session(2)), Some("two"), Some(latest));
    assert!(opened.connection.session().is_some());
    assert!(opened.tell_channel);
    assert!(state.is_owner(2, &epoch(2)));

    let opened = open_connection(&mut state, 3, None, Some("three"), Some(latest));
    assert!(opened.connection.session().is_none());
    assert!(!opened.tell_channel);
    assert!(state.is_owner(2, &epoch(2)));
}

#[test]
fn disconnect_removes_registration_and_ownership() {
    let mut registry: ConnectionRegistry<&'static str> = ConnectionRegistry::new();
    let mut state: ProjectionState<&'static str> = ProjectionState::new();
    registry.insert(7, "seven");
    registry.insert(8, "eight");
    let (generation, _) = state.begin_projection_attempt();
    assert!(state.activate_projection(generation, 7, epoch(7), "channel"));

    assert_eq!(disconnect(&mut registry, &mut state, 8), (Some("eight"), None));
    assert!(state.is_owner(7, &epoch(7)));
    assert_eq!(disconnect(&mut registry, &mut state, 7), (Some("seven"), Some("channel")));
    assert!(!registry.contains(7));
    // Repeated teardown is intentionally a no-op.
    assert_eq!(disconnect(&mut registry, &mut state, 7), (None, None));
}

#[test]
fn invalidating_and_draining_empties_everything() {
    let mut registry: ConnectionRegistry<&'static str> = ConnectionRegistry::new();
    let mut state: ProjectionState<&'static str> = ProjectionState::new();
    registry.insert(7, "seven");
    registry.insert(8, "eight");
    let (generation, _) = state.begin_projection_attempt();
    assert!(state.activate_projection(generation, 7, epoch(7), "channel"));

    assert_eq!(state.invalidate_projection(), Some("channel"));
    let mut rounds = ConnectRounds::new();
    let mut handles = disconnect_all(&mut rounds, &mut registry);
    handles.sort();
    assert_eq!(handles, vec![(7, "seven"), (8, "eight")]);
    assert!(!registry.contains(7));
    assert!(state.owner_channel().is_none());
    assert!(!state.activate_projection(generation, 7, epoch(7), "channel"));
}

fn request(seed: u8, generation: Option<u64>) -> OpenRequest<&'static str, &'static str> {
    OpenRequest {
        handle: "handle",
        session: Some(session(seed)),
        channel: Some("channel"),
        generation,
    }
}

#[test]
fn opening_registers_a_free_identifier_or_nothing() {
    let rounds = ConnectRounds::new();
    let round = rounds.current();
    let mut registry: ConnectionRegistry<&'static str> = ConnectionRegistry::new();
    let mut state: ProjectionState<&'static str> = ProjectionState::new();
    let (generation, _) = state.begin_projection_attempt();
    registry.insert(5, "other");

    let outcome = register_connection(
        &rounds, round, &mut registry, &mut state, Err(ConnectFailure::TimedOut), Some(6),
        request(1, Some(generation)),
    );
    assert!(matches!(outcome, OpenOutcome::Refused(text) if text == "WebSocket connection timed out"));
    assert!(!registry.contains(6));
    assert!(state.owner_channel().is_none());

    for candidate in [None, Some(5)] {
        let outcome = register_connection(
            &rounds, round, &mut registry, &mut state, Ok(()), candidate,
            request(1, Some(generation)),
        );
        assert!(matches!(outcome, OpenOutcome::Redraw(back) if back.handle == "handle"));
        assert_eq!(registry.find(5), Ok(&"other"));
        assert!(state.owner_channel().is_none());
    }

    let outcome = register_connection(
        &rounds, round, &mut registry, &mut state, Ok(()), Some(6), request(1, Some(generation)),
    );
    let OpenOutcome::Registered(registered) = outcome else { panic!("opens") };
    assert_eq!(registered.id, 6);
    assert!(registered.opened.tell_channel);
    assert!(registered.opened.connection.session().is_some());
    assert_eq!(registry.find(6), Ok(&"handle"));
    assert_eq!(registry.find(5), Ok(&"other"));
    assert!(state.is_owner(6, &epoch(1)));

    let mut connection = registered.opened.connection;
    let closed =
        close_connection(&mut connection, &mut registry, &mut state, 6, registered.token);
    assert_eq!(closed.channel, Some("channel"));
    assert!(!closed.tell_tracker);
    assert!(!registry.contains(6));
    assert!(registry.contains(5));
}

#[test]
fn opening_draws_a_free_identifier() {
    let rounds = ConnectRounds::new();
    let mut registry: ConnectionRegistry<&'static str> = ConnectionRegistry::new();
    let mut state: ProjectionState<&'static str> = ProjectionState::new();
    let outcome = open_after_handshake(
        &rounds, rounds.current(), &mut registry, &mut state, Ok(()), 1, request(1, None),
    );
    let OpenOutcome::Registered(registered) = outcome else { panic!("opens") };
    assert!(registry.contains(registered.id));
    assert!(registered.opened.connection.session().is_none());
    let outcome = open_after_handshake(
        &rounds, rounds.current(), &mut registry, &mut state, Ok(()), 0, request(1, None),
    );
    assert!(matches!(outcome, OpenOutcome::Redraw(_)));
}

#[test]
fn ending_all_connections_refuses_those_being_opened() {
    let mut rounds = ConnectRounds::new();
    let mut registry: ConnectionRegistry<&'static str> = ConnectionRegistry::new();
    let mut state: ProjectionState<&'static str> = ProjectionState::new();
    let round = rounds.current();
    registry.insert(1, "one");
    assert_eq!(disconnect_all(&mut rounds, &mut registry), vec![(1, "one")]);
    assert!(rounds.is_over(round));
    let outcome = open_after_handshake(
        &rounds, round, &mut registry, &mut state, Ok(()), 8, request(1, None),
    );
    assert!(matches!(outcome, OpenOutcome::Refused(text) if text == "WebSocket connection cancelled"));
    assert!(registry.drain().is_empty());
    assert!(!rounds.is_over(rounds.current()));
}

#[test]
fn stale_end_keeps_the_reused_registration() {
    let mut registry: ConnectionRegistry<&'static str> = ConnectionRegistry::new();
    let mut state: ProjectionState<&'static str> = ProjectionState::new();
    let old = registry.insert(9, "old");
    registry.insert(9, "new");
    let (generation, _) = state.begin_projection_attempt();
    assert!(state.activate_projection(generation, 9, epoch(2), "new"));
    let mut connection = Connection::new(Some(session(1)));
    let closed = close_connection(&mut connection, &mut registry, &mut state, 9, old);
    assert!(closed.channel.is_none());
    assert_eq!(registry.find(9), Ok(&"new"));
    assert!(state.is_owner(9, &epoch(2)));
}

#[test]
fn refused_messages_are_not_looked_up() {
    let mut registry: ConnectionRegistry<&'static str> = ConnectionRegistry::new();
    registry.insert(4, "four");
    let text = || WebSocketMessage::Text("m".to_string());
    let refused = || Err("key backup".to_string());
    assert!(matches!(
        guarded_message(text(), refused()),
        Err(SendProgress::Refused(reason)) if reason == "key backup"
    ));
    assert!(matches!(
        guarded_message(text(), Ok(())),
        Ok(SocketMessage::Text(value)) if value == "m"
    ));
    for id in [4, 5] {
        assert!(matches!(
            dispatch_message(&registry, id, text(), refused()),
            Err(SendProgress::Refused(reason)) if reason == "key backup"
        ));
    }
    assert!(matches!(
        dispatch_message(&registry, 4, text(), Ok(())),
        Ok((&"four", SocketMessage::Text(value))) if value == "m"
    ));
    assert!(matches!(
        dispatch_message(&registry, 5, text(), Ok(())),
        Err(SendProgress::NotFound(reason)) if reason == "WebSocket connection 5 not found"
    ));
}

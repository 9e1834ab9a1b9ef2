use texler::auth::AuthContext;
use texler::collaboration::CreateCollaborationSession;
use texler::collaboration::OperationType;
use texler::collaboration::ParticipantRole;
use texler::engine::WsServerState;
use texler::protocol::Delivery;
use texler::protocol::WsMessage;

fn context(user_id: u64, name: &str) -> AuthContext {
    AuthContext {
        user_id,
        username: name.to_string(),
        email: format!("{}@example.com", name),
        roles: Vec::new(),
        token_issued_at: 1_000,
        token_expires_at: 100_000,
    }
}

fn new_engine_with_session(password: Option<String>, max_participants: u32) -> (WsServerState, u64) {
    let mut engine = WsServerState::new();
    let request = CreateCollaborationSession {
        title: Some("Design review".to_string()),
        description: None,
        session_type: None,
        file_id: Some(7),
        max_participants: Some(max_participants),
        password,
        settings: None,
    };
    let sid = engine.create_session(1, 42, request, 1_000).unwrap();
    (engine, sid)
}

fn joined(engine: &mut WsServerState, cid: u64, uid: u64, name: &str, sid: u64, role: ParticipantRole) {
    engine.register_connection(cid, 1_000);
    let auth = engine.handle_authenticate(cid, Ok(context(uid, name)), 1_000);
    assert!(matches!(
        auth.last().unwrap().frame,
        WsMessage::AuthResult { success: true, .. }
    ));
    let replies = engine.handle_session_join(cid, sid, uid, role, None, 1_100);
    assert!(matches!(
        replies.last().unwrap().frame,
        WsMessage::SessionJoined { .. }
    ));
}

#[test]
fn operation_reaches_other_participant_with_fresh_timestamp() {
    let (mut engine, sid) = new_engine_with_session(None, 10);
    joined(&mut engine, 1, 101, "alice", sid, ParticipantRole::Editor);
    joined(&mut engine, 2, 102, "bob", sid, ParticipantRole::Viewer);

    let frame = WsMessage::Operation {
        session_id: sid,
        operation_type: OperationType::Insert,
        position: Some(10),
        content: Some("hi".to_string()),
        length: None,
        file_id: None,
    };
    let deliveries = engine.handle_ws_message(1, frame, 2_000);
    let to_bob: Vec<&Delivery> = deliveries.iter().filter(|d| d.to == 2).collect();
    assert_eq!(to_bob.len(), 1);
    match &to_bob[0].frame {
        WsMessage::ServerOperation {
            session_id,
            user_id,
            operation_type,
            position,
            content,
            timestamp,
            ..
        } => {
            assert_eq!(*session_id, sid);
            assert_eq!(*user_id, 101);
            assert_eq!(*operation_type, OperationType::Insert);
            assert_eq!(*position, Some(10));
            assert_eq!(content.as_deref(), Some("hi"));
            assert_eq!(*timestamp, 2_000);
        }
        other => panic!("unexpected frame: {:?}", other),
    }

    // a second operation gets a strictly greater timestamp even if the
    // server clock has not advanced
    let frame = WsMessage::Operation {
        session_id: sid,
        operation_type: OperationType::Insert,
        position: Some(12),
        content: Some("!".to_string()),
        length: None,
        file_id: None,
    };
    let deliveries = engine.handle_ws_message(1, frame, 2_000);
    let to_bob: Vec<&Delivery> = deliveries.iter().filter(|d| d.to == 2).collect();
    match &to_bob[0].frame {
        WsMessage::ServerOperation { timestamp, .. } => assert_eq!(*timestamp, 2_001),
        other => panic!("unexpected frame: {:?}", other),
    }
    assert!(engine.operations[0].timestamp < engine.operations[1].timestamp);
}

#[test]
fn unauthenticated_join_is_rejected_and_connection_survives() {
    let (mut engine, sid) = new_engine_with_session(None, 10);
    engine.register_connection(1, 1_000);
    let frame = WsMessage::JoinSession {
        session_id: sid,
        role: ParticipantRole::Editor,
        password: None,
    };
    let deliveries = engine.handle_ws_message(1, frame, 1_100);
    assert_eq!(deliveries.len(), 1);
    assert_eq!(deliveries[0].to, 1);
    match &deliveries[0].frame {
        WsMessage::Error { code, .. } => assert_eq!(code, "UNAUTHORIZED"),
        other => panic!("unexpected frame: {:?}", other),
    }
    assert_eq!(engine.connections.len(), 1);
}

#[test]
fn wrong_password_is_indistinguishable_from_unknown_session() {
    let (mut engine, sid) = new_engine_with_session(Some("s3cret".to_string()), 10);
    engine.register_connection(1, 1_000);
    engine.handle_authenticate(1, Ok(context(101, "alice")), 1_000);

    let wrong_password = engine.handle_session_join(
        1,
        sid,
        101,
        ParticipantRole::Editor,
        Some("nope".to_string()),
        1_100,
    );
    let unknown_session = engine.handle_session_join(
        1,
        sid + 999,
        101,
        ParticipantRole::Editor,
        Some("nope".to_string()),
        1_100,
    );
    let code_of = |d: &Delivery| match &d.frame {
        WsMessage::Error { code, .. } => code.clone(),
        other => panic!("unexpected frame: {:?}", other),
    };
    assert_eq!(code_of(&wrong_password[0]), "NOT_FOUND");
    assert_eq!(code_of(&unknown_session[0]), "NOT_FOUND");
    // the right password is accepted
    let accepted = engine.handle_session_join(
        1,
        sid,
        101,
        ParticipantRole::Editor,
        Some("s3cret".to_string()),
        1_200,
    );
    assert!(matches!(
        accepted.last().unwrap().frame,
        WsMessage::SessionJoined { .. }
    ));
}

#[test]
fn full_session_refuses_a_new_member_with_conflict() {
    let (mut engine, sid) = new_engine_with_session(None, 1);
    joined(&mut engine, 1, 101, "alice", sid, ParticipantRole::Editor);
    engine.register_connection(2, 1_000);
    engine.handle_authenticate(2, Ok(context(102, "bob")), 1_000);
    let refused = engine.handle_session_join(2, sid, 102, ParticipantRole::Viewer, None, 1_300);
    assert_eq!(refused.len(), 1);
    match &refused[0].frame {
        WsMessage::Error { code, message } => {
            assert_eq!(code, "CONFLICT");
            assert_eq!(message, "Session is full");
        }
        other => panic!("unexpected frame: {:?}", other),
    }
    // nothing was partially created
    assert_eq!(engine.participants.len(), 1);
}

#[test]
fn leaving_twice_broadcasts_only_once() {
    let (mut engine, sid) = new_engine_with_session(None, 10);
    joined(&mut engine, 1, 101, "alice", sid, ParticipantRole::Editor);
    joined(&mut engine, 2, 102, "bob", sid, ParticipantRole::Viewer);

    let first = engine.handle_session_leave(1, 2_000);
    assert!(first
        .iter()
        .any(|d| d.to == 2 && matches!(d.frame, WsMessage::ParticipantLeft { user_id: 101, .. })));
    let second = engine.handle_session_leave(1, 2_100);
    assert!(second.is_empty());
    assert_eq!(engine.connections.len(), 2);
}

#[test]
fn silent_connection_is_swept_and_departure_is_observed() {
    let (mut engine, sid) = new_engine_with_session(None, 10);
    joined(&mut engine, 1, 101, "alice", sid, ParticipantRole::Editor);
    joined(&mut engine, 2, 102, "bob", sid, ParticipantRole::Viewer);
    // bob answers the ping, alice does not
    engine.record_pong(2, 95_000);

    let deliveries = engine.check_liveness(100_000, 90_000);
    assert_eq!(engine.connections.len(), 1);
    assert_eq!(engine.connections[0].connection_id, 2);
    assert!(deliveries
        .iter()
        .any(|d| d.to == 2 && matches!(d.frame, WsMessage::ParticipantLeft { user_id: 101, .. })));
    // alice's participant row was soft-closed
    assert!(!engine.participants[0].is_online);
    assert_eq!(engine.participants[0].left_at, Some(100_000));
}

#[test]
fn chat_messages_are_persisted_and_fanned_out() {
    let (mut engine, sid) = new_engine_with_session(None, 10);
    joined(&mut engine, 1, 101, "alice", sid, ParticipantRole::Editor);
    joined(&mut engine, 2, 102, "bob", sid, ParticipantRole::Viewer);

    let frame = WsMessage::ChatMessage {
        session_id: sid,
        content: "hello there".to_string(),
        message_type: texler::collaboration::MessageType::Text,
        reply_to: None,
    };
    let deliveries = engine.handle_ws_message(1, frame, 3_000);
    assert!(deliveries
        .iter()
        .any(|d| d.to == 2
            && matches!(&d.frame, WsMessage::ServerChatMessage { content, .. } if content == "hello there")));
    assert_eq!(engine.messages.len(), 1);
    assert_eq!(engine.messages[0].content, "hello there");
}

#[test]
fn ping_is_answered_with_pong() {
    let (mut engine, _sid) = new_engine_with_session(None, 10);
    engine.register_connection(1, 1_000);
    let deliveries = engine.handle_ws_message(1, WsMessage::Ping, 1_050);
    assert_eq!(deliveries.len(), 1);
    assert!(matches!(deliveries[0].frame, WsMessage::Pong));
}

#[test]
fn rejected_credentials_keep_the_connection_open() {
    let (mut engine, _sid) = new_engine_with_session(None, 10);
    engine.register_connection(1, 1_000);
    let deliveries = engine.handle_authenticate(1, Err("expired token".to_string()), 1_050);
    assert_eq!(deliveries.len(), 1);
    match &deliveries[0].frame {
        WsMessage::AuthResult { success, user, error } => {
            assert!(!success);
            assert!(user.is_none());
            assert_eq!(error.as_deref(), Some("Authentication failed: expired token"));
        }
        other => panic!("unexpected frame: {:?}", other),
    }
    assert_eq!(engine.connections.len(), 1);
}

#[test]
fn abrupt_disconnect_cleans_up_membership() {
    let (mut engine, sid) = new_engine_with_session(None, 10);
    joined(&mut engine, 1, 101, "alice", sid, ParticipantRole::Editor);
    joined(&mut engine, 2, 102, "bob", sid, ParticipantRole::Viewer);
    let deliveries = engine.unregister_connection(1, 5_000);
    assert_eq!(engine.connections.len(), 1);
    assert!(deliveries
        .iter()
        .any(|d| d.to == 2 && matches!(d.frame, WsMessage::ParticipantLeft { user_id: 101, .. })));
    assert!(!engine.participants[0].is_online);
}

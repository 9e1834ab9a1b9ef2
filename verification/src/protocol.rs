//! The message-framed wire protocol: one tagged frame type for both
//! directions, and the delivery records the engine hands back for the
//! transport layer to send.

use vstd::prelude::*;
use crate::auth::AuthContext;
use crate::auth::AuthContextView;
use crate::collaboration::CollaborationSession;
use crate::collaboration::CollaborationSessionView;
use crate::collaboration::MessageType;
use crate::collaboration::OperationType;
use crate::collaboration::ParticipantRole;
use crate::collaboration::SessionParticipant;
use crate::collaboration::SessionParticipantView;

verus! {

/// A protocol frame. The first group of variants arrives from
/// clients; the rest are sent by the server.
#[derive(Debug)]
pub enum WsMessage {
    /// Authenticate with a bearer token
    Authenticate { token: String, session_id: Option<u64> },
    /// Join a collaboration session
    JoinSession { session_id: u64, role: ParticipantRole, password: Option<String> },
    /// Leave the current session
    LeaveSession,
    /// Send an operation to a session
    Operation {
        session_id: u64,
        operation_type: OperationType,
        position: Option<i32>,
        content: Option<String>,
        length: Option<i32>,
        file_id: Option<u64>,
    },
    /// Update the cursor position
    Cursor { session_id: u64, position: i32, selection: Option<String> },
    /// Send a chat message
    ChatMessage { session_id: u64, content: String, message_type: MessageType, reply_to: Option<u64> },
    /// Keep alive
    Ping,
    /// Authentication success or failure
    AuthResult { success: bool, user: Option<AuthContext>, error: Option<String> },
    /// The session was joined
    SessionJoined {
        session_id: u64,
        participants: Vec<SessionParticipant>,
        session_info: CollaborationSession,
    },
    /// A participant joined or was updated
    ParticipantUpdate { session_id: u64, participant: SessionParticipant },
    /// A participant left
    ParticipantLeft { session_id: u64, user_id: u64 },
    /// An operation accepted by the server
    ServerOperation {
        session_id: u64,
        user_id: u64,
        operation_type: OperationType,
        position: Option<i32>,
        content: Option<String>,
        length: Option<i32>,
        file_id: Option<u64>,
        timestamp: i64,
    },
    /// A chat message accepted by the server
    ServerChatMessage {
        session_id: u64,
        id: u64,
        user_id: u64,
        content: String,
        message_type: MessageType,
        reply_to: Option<u64>,
        timestamp: i64,
    },
    /// Session status update
    SessionStatus { session_id: u64, status: String },
    /// Error report
    Error { code: String, message: String },
    /// Keep alive response
    Pong,
}

/// The mathematical value of a protocol frame.
#[verifier::ext_equal]
pub enum FrameView {
    Authenticate { token: Seq<char>, session_id: Option<u64> },
    JoinSession { session_id: u64, role: ParticipantRole, password: Option<Seq<char>> },
    LeaveSession,
    Operation {
        session_id: u64,
        operation_type: OperationType,
        position: Option<i32>,
        content: Option<Seq<char>>,
        length: Option<i32>,
        file_id: Option<u64>,
    },
    Cursor { session_id: u64, position: i32, selection: Option<Seq<char>> },
    ChatMessage {
        session_id: u64,
        content: Seq<char>,
        message_type: MessageType,
        reply_to: Option<u64>,
    },
    Ping,
    AuthResult { success: bool, user: Option<AuthContextView>, error: Option<Seq<char>> },
    SessionJoined {
        session_id: u64,
        participants: Seq<SessionParticipantView>,
        session_info: CollaborationSessionView,
    },
    ParticipantUpdate { session_id: u64, participant: SessionParticipantView },
    ParticipantLeft { session_id: u64, user_id: u64 },
    ServerOperation {
        session_id: u64,
        user_id: u64,
        operation_type: OperationType,
        position: Option<i32>,
        content: Option<Seq<char>>,
        length: Option<i32>,
        file_id: Option<u64>,
        timestamp: i64,
    },
    ServerChatMessage {
        session_id: u64,
        id: u64,
        user_id: u64,
        content: Seq<char>,
        message_type: MessageType,
        reply_to: Option<u64>,
        timestamp: i64,
    },
    SessionStatus { session_id: u64, status: Seq<char> },
    Error { code: Seq<char>, message: Seq<char> },
    Pong,
}

/// The mathematical value of an optional string.
pub open spec fn opt_str_view(o: Option<String>) -> Option<Seq<char>> {
    match o {
        Some(s) => Some(s@),
        None => None,
    }
}

/// The mathematical value of an optional authentication context.
pub open spec fn opt_auth_view(o: Option<AuthContext>) -> Option<AuthContextView> {
    match o {
        Some(a) => Some(a@),
        None => None,
    }
}

impl View for WsMessage {
    type V = FrameView;

    open spec fn view(&self) -> FrameView {
        match self {
            WsMessage::Authenticate { token, session_id } => FrameView::Authenticate {
                token: token@,
                session_id: *session_id,
            },
            WsMessage::JoinSession { session_id, role, password } => FrameView::JoinSession {
                session_id: *session_id,
                role: *role,
                password: opt_str_view(*password),
            },
            WsMessage::LeaveSession => FrameView::LeaveSession,
            WsMessage::Operation {
                session_id,
                operation_type,
                position,
                content,
                length,
                file_id,
            } => FrameView::Operation {
                session_id: *session_id,
                operation_type: *operation_type,
                position: *position,
                content: opt_str_view(*content),
                length: *length,
                file_id: *file_id,
            },
            WsMessage::Cursor { session_id, position, selection } => FrameView::Cursor {
                session_id: *session_id,
                position: *position,
                selection: opt_str_view(*selection),
            },
            WsMessage::ChatMessage { session_id, content, message_type, reply_to } => (
            FrameView::ChatMessage {
                session_id: *session_id,
                content: content@,
                message_type: *message_type,
                reply_to: *reply_to,
            }),
            WsMessage::Ping => FrameView::Ping,
            WsMessage::AuthResult { success, user, error } => FrameView::AuthResult {
                success: *success,
                user: opt_auth_view(*user),
                error: opt_str_view(*error),
            },
            WsMessage::SessionJoined { session_id, participants, session_info } => (
            FrameView::SessionJoined {
                session_id: *session_id,
                participants: participants@.map_values(|p: SessionParticipant| p@),
                session_info: session_info@,
            }),
            WsMessage::ParticipantUpdate { session_id, participant } => (
            FrameView::ParticipantUpdate {
                session_id: *session_id,
                participant: participant@,
            }),
            WsMessage::ParticipantLeft { session_id, user_id } => FrameView::ParticipantLeft {
                session_id: *session_id,
                user_id: *user_id,
            },
            WsMessage::ServerOperation {
                session_id,
                user_id,
                operation_type,
                position,
                content,
                length,
                file_id,
                timestamp,
            } => FrameView::ServerOperation {
                session_id: *session_id,
                user_id: *user_id,
                operation_type: *operation_type,
                position: *position,
                content: opt_str_view(*content),
                length: *length,
                file_id: *file_id,
                timestamp: *timestamp,
            },
            WsMessage::ServerChatMessage {
                session_id,
                id,
                user_id,
                content,
                message_type,
                reply_to,
                timestamp,
            } => FrameView::ServerChatMessage {
                session_id: *session_id,
                id: *id,
                user_id: *user_id,
                content: content@,
                message_type: *message_type,
                reply_to: *reply_to,
                timestamp: *timestamp,
            },
            WsMessage::SessionStatus { session_id, status } => FrameView::SessionStatus {
                session_id: *session_id,
                status: status@,
            },
            WsMessage::Error { code, message } => FrameView::Error {
                code: code@,
                message: message@,
            },
            WsMessage::Pong => FrameView::Pong,
        }
    }
}

/// Copies an optional string, keeping its contents.
fn dup_opt_string(o: &Option<String>) -> (r: Option<String>)
    ensures
        opt_str_view(r) == opt_str_view(*o),
{
    match o {
        Some(s) => Some(s.clone()),
        None => None,
    }
}

impl WsMessage {
    /// An identical copy of the frame.
    pub fn duplicate(&self) -> (r: Self)
        ensures
            r@ == self@,
    {
        match self {
            WsMessage::Authenticate { token, session_id } => WsMessage::Authenticate {
                token: token.clone(),
                session_id: *session_id,
            },
            WsMessage::JoinSession { session_id, role, password } => WsMessage::JoinSession {
                session_id: *session_id,
                role: *role,
                password: dup_opt_string(password),
            },
            WsMessage::LeaveSession => WsMessage::LeaveSession,
            WsMessage::Operation {
                session_id,
                operation_type,
                position,
                content,
                length,
                file_id,
            } => WsMessage::Operation {
                session_id: *session_id,
                operation_type: *operation_type,
                position: *position,
                content: dup_opt_string(content),
                length: *length,
                file_id: *file_id,
            },
            WsMessage::Cursor { session_id, position, selection } => WsMessage::Cursor {
                session_id: *session_id,
                position: *position,
                selection: dup_opt_string(selection),
            },
            WsMessage::ChatMessage { session_id, content, message_type, reply_to } => (
            WsMessage::ChatMessage {
                session_id: *session_id,
                content: content.clone(),
                message_type: *message_type,
                reply_to: *reply_to,
            }),
            WsMessage::Ping => WsMessage::Ping,
            WsMessage::AuthResult { success, user, error } => WsMessage::AuthResult {
                success: *success,
                user: match user {
                    Some(u) => Some(u.duplicate()),
                    None => None,
                },
                error: dup_opt_string(error),
            },
            WsMessage::SessionJoined { session_id, participants, session_info } => (
            WsMessage::SessionJoined {
                session_id: *session_id,
                participants: dup_participants(participants),
                session_info: session_info.duplicate(),
            }),
            WsMessage::ParticipantUpdate { session_id, participant } => (
            WsMessage::ParticipantUpdate {
                session_id: *session_id,
                participant: participant.duplicate(),
            }),
            WsMessage::ParticipantLeft { session_id, user_id } => WsMessage::ParticipantLeft {
                session_id: *session_id,
                user_id: *user_id,
            },
            WsMessage::ServerOperation {
                session_id,
                user_id,
                operation_type,
                position,
                content,
                length,
                file_id,
                timestamp,
            } => WsMessage::ServerOperation {
                session_id: *session_id,
                user_id: *user_id,
                operation_type: *operation_type,
                position: *position,
                content: dup_opt_string(content),
                length: *length,
                file_id: *file_id,
                timestamp: *timestamp,
            },
            WsMessage::ServerChatMessage {
                session_id,
                id,
                user_id,
                content,
                message_type,
                reply_to,
                timestamp,
            } => WsMessage::ServerChatMessage {
                session_id: *session_id,
                id: *id,
                user_id: *user_id,
                content: content.clone(),
                message_type: *message_type,
                reply_to: *reply_to,
                timestamp: *timestamp,
            },
            WsMessage::SessionStatus { session_id, status } => WsMessage::SessionStatus {
                session_id: *session_id,
                status: status.clone(),
            },
            WsMessage::Error { code, message } => WsMessage::Error {
                code: code.clone(),
                message: message.clone(),
            },
            WsMessage::Pong => WsMessage::Pong,
        }
    }
}

/// Copies a roster, keeping its contents.
pub fn dup_participants(participants: &Vec<SessionParticipant>) -> (r: Vec<SessionParticipant>)
    ensures
        r@.map_values(|p: SessionParticipant| p@) == participants@.map_values(
            |p: SessionParticipant| p@,
        ),
{
    let n = participants.len();
    let mut r: Vec<SessionParticipant> = Vec::new();
    let mut i: usize = 0;
    while i < n
        invariant
            0 <= i <= n,
            n == participants@.len(),
            r@.len() == i,
            forall|k: int| 0 <= k < i ==> r@[k]@ == #[trigger] participants@[k]@,
        decreases n - i,
    {
        r.push(participants[i].duplicate());
        i = i + 1;
    }
    proof {
        assert(r@.map_values(|p: SessionParticipant| p@) =~= participants@.map_values(
            |p: SessionParticipant| p@,
        ));
    }
    r
}

/// One frame addressed to one connection.
#[derive(Debug)]
pub struct Delivery {
    pub to: u64,
    pub frame: WsMessage,
}

/// The mathematical value of a delivery.
#[verifier::ext_equal]
pub struct DeliveryView {
    pub to: u64,
    pub frame: FrameView,
}

impl View for Delivery {
    type V = DeliveryView;

    open spec fn view(&self) -> DeliveryView {
        DeliveryView { to: self.to, frame: self.frame@ }
    }
}

/// The mathematical value of a batch of deliveries.
pub open spec fn deliveries_view(v: Seq<Delivery>) -> Seq<DeliveryView> {
    v.map_values(|d: Delivery| d@)
}

} // verus!

//! Collaboration model types: sessions, participants, operations and
//! chat messages, with the request payloads of the session endpoints.
//! Identifiers are carried as integers and instants as Unix
//! timestamps.

use vstd::prelude::*;
use crate::models::PaginationInfo;

verus! {

/// Session type.
#[derive(Clone, Copy, Debug, PartialEq, Eq, Structural)]
pub enum SessionType {
    Realtime,
    Review,
    Tutorial,
    Meeting,
}

impl Default for SessionType {
    fn default() -> (r: Self)
        ensures
            r == SessionType::Realtime,
    {
        SessionType::Realtime
    }
}

/// Participant role in a session.
#[derive(Clone, Copy, Debug, PartialEq, Eq, Structural)]
pub enum ParticipantRole {
    Host,
    Presenter,
    Editor,
    Viewer,
}

impl Default for ParticipantRole {
    fn default() -> (r: Self)
        ensures
            r == ParticipantRole::Viewer,
    {
        ParticipantRole::Viewer
    }
}

/// Operation type for collaborative editing.
#[derive(Clone, Copy, Debug, PartialEq, Eq, Structural)]
pub enum OperationType {
    Insert,
    Delete,
    Replace,
    Format,
    Cursor,
    Selection,
}

impl OperationType {
    /// Whether this operation only moves a cursor or selection and is
    /// therefore kept on the participant row, not in the append-only
    /// log.
    pub fn is_transient(&self) -> (r: bool)
        ensures
            r == (*self == OperationType::Cursor || *self == OperationType::Selection),
    {
        matches!(self, OperationType::Cursor | OperationType::Selection)
    }
}

/// Message type in session chat.
#[derive(Clone, Copy, Debug, PartialEq, Eq, Structural)]
pub enum MessageType {
    Text,
    System,
    File,
    Code,
}

impl Default for MessageType {
    fn default() -> (r: Self)
        ensures
            r == MessageType::Text,
    {
        MessageType::Text
    }
}

/// A collaboration session record.
#[derive(Debug)]
pub struct CollaborationSession {
    pub id: u64,
    pub project_id: u64,
    pub file_id: Option<u64>,
    pub created_by: u64,
    pub session_type: SessionType,
    pub title: Option<String>,
    pub description: Option<String>,
    pub is_active: bool,
    pub max_participants: u32,
    pub password_hash: Option<String>,
    pub settings: Option<String>,
    pub started_at: Option<i64>,
    pub ended_at: Option<i64>,
    pub created_at: i64,
    pub updated_at: i64,
}

/// The mathematical value of a session record.
#[verifier::ext_equal]
pub struct CollaborationSessionView {
    pub id: u64,
    pub project_id: u64,
    pub file_id: Option<u64>,
    pub created_by: u64,
    pub session_type: SessionType,
    pub title: Option<Seq<char>>,
    pub description: Option<Seq<char>>,
    pub is_active: bool,
    pub max_participants: u32,
    pub password_hash: Option<Seq<char>>,
    pub settings: Option<Seq<char>>,
    pub started_at: Option<i64>,
    pub ended_at: Option<i64>,
    pub created_at: i64,
    pub updated_at: i64,
}

/// The mathematical value of an optional string.
pub open spec fn view_opt_str(o: Option<String>) -> Option<Seq<char>> {
    match o {
        Some(s) => Some(s@),
        None => None,
    }
}

impl View for CollaborationSession {
    type V = CollaborationSessionView;

    open spec fn view(&self) -> CollaborationSessionView {
        CollaborationSessionView {
            id: self.id,
            project_id: self.project_id,
            file_id: self.file_id,
            created_by: self.created_by,
            session_type: self.session_type,
            title: view_opt_str(self.title),
            description: view_opt_str(self.description),
            is_active: self.is_active,
            max_participants: self.max_participants,
            password_hash: view_opt_str(self.password_hash),
            settings: view_opt_str(self.settings),
            started_at: self.started_at,
            ended_at: self.ended_at,
            created_at: self.created_at,
            updated_at: self.updated_at,
        }
    }
}

impl CollaborationSession {
    /// An identical copy of the record.
    pub fn duplicate(&self) -> (r: Self)
        ensures
            r@ == self@,
    {
        CollaborationSession {
            id: self.id,
            project_id: self.project_id,
            file_id: self.file_id,
            created_by: self.created_by,
            session_type: self.session_type,
            title: clone_opt_string(&self.title),
            description: clone_opt_string(&self.description),
            is_active: self.is_active,
            max_participants: self.max_participants,
            password_hash: clone_opt_string(&self.password_hash),
            settings: clone_opt_string(&self.settings),
            started_at: self.started_at,
            ended_at: self.ended_at,
            created_at: self.created_at,
            updated_at: self.updated_at,
        }
    }
}

/// Copies an optional string, keeping its contents.
pub fn clone_opt_string(o: &Option<String>) -> (r: Option<String>)
    ensures
        view_opt_str(r) == view_opt_str(*o),
{
    match o {
        Some(s) => Some(s.clone()),
        None => None,
    }
}

/// A participant row: one user's membership in one session.
#[derive(Debug)]
pub struct SessionParticipant {
    pub id: u64,
    pub session_id: u64,
    pub user_id: u64,
    pub role: ParticipantRole,
    pub joined_at: i64,
    pub left_at: Option<i64>,
    pub cursor_position: Option<i32>,
    pub selection: Option<String>,
    pub is_online: bool,
    pub last_seen_at: i64,
    pub permissions: Option<String>,
}

/// The mathematical value of a participant row.
#[verifier::ext_equal]
pub struct SessionParticipantView {
    pub id: u64,
    pub session_id: u64,
    pub user_id: u64,
    pub role: ParticipantRole,
    pub joined_at: i64,
    pub left_at: Option<i64>,
    pub cursor_position: Option<i32>,
    pub selection: Option<Seq<char>>,
    pub is_online: bool,
    pub last_seen_at: i64,
    pub permissions: Option<Seq<char>>,
}

impl View for SessionParticipant {
    type V = SessionParticipantView;

    open spec fn view(&self) -> SessionParticipantView {
        SessionParticipantView {
            id: self.id,
            session_id: self.session_id,
            user_id: self.user_id,
            role: self.role,
            joined_at: self.joined_at,
            left_at: self.left_at,
            cursor_position: self.cursor_position,
            selection: view_opt_str(self.selection),
            is_online: self.is_online,
            last_seen_at: self.last_seen_at,
            permissions: view_opt_str(self.permissions),
        }
    }
}

impl SessionParticipant {
    /// An identical copy of the row.
    pub fn duplicate(&self) -> (r: Self)
        ensures
            r@ == self@,
    {
        SessionParticipant {
            id: self.id,
            session_id: self.session_id,
            user_id: self.user_id,
            role: self.role,
            joined_at: self.joined_at,
            left_at: self.left_at,
            cursor_position: self.cursor_position,
            selection: clone_opt_string(&self.selection),
            is_online: self.is_online,
            last_seen_at: self.last_seen_at,
            permissions: clone_opt_string(&self.permissions),
        }
    }
}

/// A persisted, append-only edit operation.
#[derive(Clone, Debug)]
pub struct SessionOperation {
    pub id: u64,
    pub session_id: u64,
    pub user_id: u64,
    pub operation_type: OperationType,
    pub file_id: Option<u64>,
    pub position: Option<i32>,
    pub length: Option<i32>,
    pub content: Option<String>,
    pub timestamp: i64,
    pub applied: bool,
    pub applied_at: Option<i64>,
    pub rejected: bool,
    pub rejected_at: Option<i64>,
    pub rejection_reason: Option<String>,
}

/// A persisted chat message.
#[derive(Clone, Debug)]
pub struct SessionMessage {
    pub id: u64,
    pub session_id: u64,
    pub user_id: u64,
    pub message_type: MessageType,
    pub content: String,
    pub reply_to: Option<u64>,
    pub reactions: Option<String>,
    pub edited: bool,
    pub edited_at: Option<i64>,
    pub deleted: bool,
    pub deleted_at: Option<i64>,
    pub created_at: i64,
}

/// A session invitation.
#[derive(Clone, Debug)]
pub struct SessionInvitation {
    pub id: u64,
    pub session_id: u64,
    pub invited_by: u64,
    pub invited_user: Option<u64>,
    pub email: Option<String>,
    pub role: ParticipantRole,
    pub message: Option<String>,
    pub token: String,
    pub expires_at: i64,
    pub accepted: bool,
    pub accepted_at: Option<i64>,
    pub declined: bool,
    pub declined_at: Option<i64>,
    pub created_at: i64,
}

/// A session recording.
#[derive(Clone, Debug)]
pub struct SessionRecording {
    pub id: u64,
    pub session_id: u64,
    pub started_at: i64,
    pub ended_at: Option<i64>,
    pub duration_seconds: Option<i32>,
    pub file_path: String,
    pub file_size: i64,
    pub format: String,
    pub quality: String,
    pub created_at: i64,
}

/// Creation request for a collaboration session.
#[derive(Clone, Debug)]
pub struct CreateCollaborationSession {
    pub title: Option<String>,
    pub description: Option<String>,
    pub session_type: Option<SessionType>,
    pub file_id: Option<u64>,
    pub max_participants: Option<u32>,
    pub password: Option<String>,
    pub settings: Option<String>,
}

/// Update request for a collaboration session.
#[derive(Clone, Debug)]
pub struct UpdateCollaborationSession {
    pub title: Option<String>,
    pub description: Option<String>,
    pub is_active: Option<bool>,
    pub max_participants: Option<u32>,
    pub password: Option<String>,
    pub settings: Option<String>,
}

/// Session statistics.
#[derive(Clone, Copy, Debug)]
pub struct SessionStats {
    pub session_id: u64,
    pub total_participants: i64,
    pub current_participants: i64,
    pub total_operations: i64,
    pub total_messages: i64,
    pub duration_minutes: i64,
    pub peak_participants: i64,
    pub files_edited: i64,
    pub total_characters_typed: i64,
}

/// Session join request.
#[derive(Clone, Debug)]
pub struct JoinSessionRequest {
    pub role: ParticipantRole,
    pub password: Option<String>,
}

/// Session operation request.
#[derive(Clone, Debug)]
pub struct SessionOperationRequest {
    pub operation_type: OperationType,
    pub position: Option<i32>,
    pub content: Option<String>,
    pub length: Option<i32>,
    pub file_id: Option<u64>,
}

/// Session message request.
#[derive(Clone, Debug)]
pub struct SessionMessageRequest {
    pub content: String,
    pub message_type: MessageType,
    pub reply_to: Option<u64>,
}

/// Session invitation request.
#[derive(Clone, Debug)]
pub struct SessionInvitationRequest {
    pub email: Option<String>,
    pub user_id: Option<u64>,
    pub role: ParticipantRole,
    pub message: Option<String>,
}

/// Session statistics response.
#[derive(Clone, Copy, Debug)]
pub struct SessionStatsResponse {
    pub stats: SessionStats,
}

/// A session together with its current roster.
#[derive(Debug)]
pub struct CollaborationSessionResponse {
    pub session: CollaborationSession,
    pub participants: Vec<SessionParticipant>,
}

/// A page of sessions.
#[derive(Debug)]
pub struct SessionsListResponse {
    pub sessions: Vec<CollaborationSession>,
    pub pagination: PaginationInfo,
}

} // verus!

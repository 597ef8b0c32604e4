//! The two closed sets of wire messages: events (subprocess to supervisor)
//! and commands (supervisor to subprocess).
//!
//! Textual wire fields are kept as raw UTF-8 bytes (`Vec<u8>`): the codec
//! frames and escapes them byte for byte, so nothing here depends on char
//! boundaries. Conversion to `String` is the caller's concern.

use vstd::prelude::*;

verus! {

/// Connection states reported by the bridge.
#[derive(Debug, Clone, Copy, PartialEq, Eq, Structural)]
pub enum ConnectionState {
    Connecting,
    Connected,
    Disconnected,
    Reconnecting,
    LoggedOut,
}

/// Chat presence states (typing indicators).
#[derive(Debug, Clone, Copy, PartialEq, Eq, Structural)]
pub enum ChatPresenceState {
    Typing,
    Paused,
    Recording,
}

/// Events sent from the bridge to the supervisor, one JSON object per line.
#[derive(Debug, Clone, PartialEq, Eq)]
pub enum BridgeEvent {
    /// QR code data for pairing.
    Qr { data: Vec<u8> },
    /// Session established.
    Connected { phone: Vec<u8>, name: Vec<u8>, platform: Option<Vec<u8>> },
    /// Connection state changed.
    ConnectionState { state: ConnectionState },
    /// A domain message; the payload is opaque to the supervisor and is
    /// carried verbatim as the full JSON line it arrived on.
    Message { raw: Vec<u8> },
    /// Result of a send request.
    SendResult {
        request_id: Option<i64>,
        success: bool,
        message_id: Option<Vec<u8>>,
        timestamp: Option<i64>,
        error: Option<Vec<u8>>,
    },
    /// Profile picture response.
    ProfilePicture {
        request_id: i64,
        jid: Vec<u8>,
        url: Option<Vec<u8>>,
        id: Option<Vec<u8>>,
        error: Option<Vec<u8>>,
    },
    /// Typing / recording indicator in a chat.
    ChatPresence { chat_id: Vec<u8>, user_id: Vec<u8>, state: ChatPresenceState },
    /// Error reported by the bridge.
    Error { code: Vec<u8>, message: Vec<u8> },
    /// Informational log line.
    Log { level: Vec<u8>, message: Vec<u8> },
    /// Session logged out; a new pairing is needed.
    LoggedOut { reason: Vec<u8> },
    /// A chat was marked as read from another device.
    MarkAsRead { chat_id: Vec<u8> },
}

/// Commands sent from the supervisor to the bridge, one JSON object per line.
#[derive(Debug, Clone, PartialEq, Eq)]
pub enum BridgeCommand {
    /// Send a text message.
    Send {
        request_id: Option<i64>,
        to: Vec<u8>,
        text: Vec<u8>,
        reply_to: Option<Vec<u8>>,
        reply_to_sender: Option<Vec<u8>>,
    },
    /// Send an image message.
    SendImage {
        request_id: Option<i64>,
        to: Vec<u8>,
        media_data: Vec<u8>,
        mime_type: Vec<u8>,
        caption: Option<Vec<u8>>,
        reply_to: Option<Vec<u8>>,
        reply_to_sender: Option<Vec<u8>>,
    },
    /// React to a message (an empty emoji removes the reaction).
    SendReaction {
        request_id: Option<i64>,
        to: Vec<u8>,
        message_id: Vec<u8>,
        sender_jid: Option<Vec<u8>>,
        emoji: Vec<u8>,
    },
    /// Ask for the profile picture of a JID.
    GetProfilePicture { request_id: i64, to: Vec<u8> },
    /// Disconnect and exit.
    Disconnect,
    /// Clear the session and log out.
    Logout,
}

/// Specification twin of [`BridgeEvent`]: the same shape over byte
/// sequences and unbounded integers.
pub enum SpecEvent {
    Qr { data: Seq<u8> },
    Connected { phone: Seq<u8>, name: Seq<u8>, platform: Option<Seq<u8>> },
    ConnectionState { state: ConnectionState },
    Message { raw: Seq<u8> },
    SendResult {
        request_id: Option<int>,
        success: bool,
        message_id: Option<Seq<u8>>,
        timestamp: Option<int>,
        error: Option<Seq<u8>>,
    },
    ProfilePicture {
        request_id: int,
        jid: Seq<u8>,
        url: Option<Seq<u8>>,
        id: Option<Seq<u8>>,
        error: Option<Seq<u8>>,
    },
    ChatPresence { chat_id: Seq<u8>, user_id: Seq<u8>, state: ChatPresenceState },
    Error { code: Seq<u8>, message: Seq<u8> },
    Log { level: Seq<u8>, message: Seq<u8> },
    LoggedOut { reason: Seq<u8> },
    MarkAsRead { chat_id: Seq<u8> },
}

/// Specification twin of [`BridgeCommand`].
pub enum SpecCommand {
    Send {
        request_id: Option<int>,
        to: Seq<u8>,
        text: Seq<u8>,
        reply_to: Option<Seq<u8>>,
        reply_to_sender: Option<Seq<u8>>,
    },
    SendImage {
        request_id: Option<int>,
        to: Seq<u8>,
        media_data: Seq<u8>,
        mime_type: Seq<u8>,
        caption: Option<Seq<u8>>,
        reply_to: Option<Seq<u8>>,
        reply_to_sender: Option<Seq<u8>>,
    },
    SendReaction {
        request_id: Option<int>,
        to: Seq<u8>,
        message_id: Seq<u8>,
        sender_jid: Option<Seq<u8>>,
        emoji: Seq<u8>,
    },
    GetProfilePicture { request_id: int, to: Seq<u8> },
    Disconnect,
    Logout,
}

/// The view of an optional byte field.
pub open spec fn opt_bytes_view(o: Option<Vec<u8>>) -> Option<Seq<u8>> {
    match o {
        Some(v) => Some(v@),
        None => None,
    }
}

/// The view of an optional integer field.
pub open spec fn opt_int_view(o: Option<i64>) -> Option<int> {
    match o {
        Some(v) => Some(v as int),
        None => None,
    }
}

impl View for BridgeEvent {
    type V = SpecEvent;

    open spec fn view(&self) -> SpecEvent {
        match self {
            BridgeEvent::Qr { data } => SpecEvent::Qr { data: data@ },
            BridgeEvent::Connected { phone, name, platform } => SpecEvent::Connected {
                phone: phone@,
                name: name@,
                platform: opt_bytes_view(*platform),
            },
            BridgeEvent::ConnectionState { state } => SpecEvent::ConnectionState { state: *state },
            BridgeEvent::Message { raw } => SpecEvent::Message { raw: raw@ },
            BridgeEvent::SendResult { request_id, success, message_id, timestamp, error } => {
                SpecEvent::SendResult {
                    request_id: opt_int_view(*request_id),
                    success: *success,
                    message_id: opt_bytes_view(*message_id),
                    timestamp: opt_int_view(*timestamp),
                    error: opt_bytes_view(*error),
                }
            },
            BridgeEvent::ProfilePicture { request_id, jid, url, id, error } => {
                SpecEvent::ProfilePicture {
                    request_id: *request_id as int,
                    jid: jid@,
                    url: opt_bytes_view(*url),
                    id: opt_bytes_view(*id),
                    error: opt_bytes_view(*error),
                }
            },
            BridgeEvent::ChatPresence { chat_id, user_id, state } => SpecEvent::ChatPresence {
                chat_id: chat_id@,
                user_id: user_id@,
                state: *state,
            },
            BridgeEvent::Error { code, message } => SpecEvent::Error {
                code: code@,
                message: message@,
            },
            BridgeEvent::Log { level, message } => SpecEvent::Log {
                level: level@,
                message: message@,
            },
            BridgeEvent::LoggedOut { reason } => SpecEvent::LoggedOut { reason: reason@ },
            BridgeEvent::MarkAsRead { chat_id } => SpecEvent::MarkAsRead { chat_id: chat_id@ },
        }
    }
}

impl View for BridgeCommand {
    type V = SpecCommand;

    open spec fn view(&self) -> SpecCommand {
        match self {
            BridgeCommand::Send { request_id, to, text, reply_to, reply_to_sender } => {
                SpecCommand::Send {
                    request_id: opt_int_view(*request_id),
                    to: to@,
                    text: text@,
                    reply_to: opt_bytes_view(*reply_to),
                    reply_to_sender: opt_bytes_view(*reply_to_sender),
                }
            },
            BridgeCommand::SendImage {
                request_id,
                to,
                media_data,
                mime_type,
                caption,
                reply_to,
                reply_to_sender,
            } => {
                SpecCommand::SendImage {
                    request_id: opt_int_view(*request_id),
                    to: to@,
                    media_data: media_data@,
                    mime_type: mime_type@,
                    caption: opt_bytes_view(*caption),
                    reply_to: opt_bytes_view(*reply_to),
                    reply_to_sender: opt_bytes_view(*reply_to_sender),
                }
            },
            BridgeCommand::SendReaction { request_id, to, message_id, sender_jid, emoji } => {
                SpecCommand::SendReaction {
                    request_id: opt_int_view(*request_id),
                    to: to@,
                    message_id: message_id@,
                    sender_jid: opt_bytes_view(*sender_jid),
                    emoji: emoji@,
                }
            },
            BridgeCommand::GetProfilePicture { request_id, to } => {
                SpecCommand::GetProfilePicture { request_id: *request_id as int, to: to@ }
            },
            BridgeCommand::Disconnect => SpecCommand::Disconnect,
            BridgeCommand::Logout => SpecCommand::Logout,
        }
    }
}

impl ConnectionState {
    /// The wire tag of this state.
    pub fn tag(&self) -> (r: &'static str)
        ensures
            r@ == self.spec_tag(),
    {
        proof {
            reveal_strlit("connecting");
            reveal_strlit("connected");
            reveal_strlit("disconnected");
            reveal_strlit("reconnecting");
            reveal_strlit("logged_out");
        }
        match self {
            ConnectionState::Connecting => "connecting",
            ConnectionState::Connected => "connected",
            ConnectionState::Disconnected => "disconnected",
            ConnectionState::Reconnecting => "reconnecting",
            ConnectionState::LoggedOut => "logged_out",
        }
    }

    /// The wire tag, at the specification level.
    pub open spec fn spec_tag(self) -> Seq<char> {
        match self {
            ConnectionState::Connecting => "connecting"@,
            ConnectionState::Connected => "connected"@,
            ConnectionState::Disconnected => "disconnected"@,
            ConnectionState::Reconnecting => "reconnecting"@,
            ConnectionState::LoggedOut => "logged_out"@,
        }
    }
}

} // verus!

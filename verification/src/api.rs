//! The records the storage layer and the web and tool interfaces
//! exchange: stored rows, request and response bodies, and the
//! conversions between them.

use vstd::prelude::*;

verus! {

/// A stored contact row.
#[derive(Debug, Clone)]
pub struct StoredContact {
    pub id: String,
    pub name: Option<String>,
    pub phone: Option<String>,
    pub contact_type: Option<String>,
    pub last_message_time: i64,
    pub unread_count: i32,
    /// When the contact was pinned; unset means not pinned.
    pub pinned_at: Option<i64>,
    pub last_message_preview: Option<String>,
}

/// A writing-style profile used for reply generation.
#[derive(Debug, Clone)]
pub struct StyleProfile {
    /// A contact identifier, or the global marker.
    pub contact_id: String,
    pub profile_text: String,
    pub sample_messages: Vec<String>,
    pub message_count: i32,
    pub updated_at: i64,
}

impl StyleProfile {
    /// The contact identifier that marks the global profile.
    pub fn global_id() -> (r: &'static str)
        ensures
            r@ == "__global__"@,
    {
        "__global__"
    }

    /// Whether this is the global profile.
    pub fn is_global(&self) -> (r: bool)
        ensures
            r == (self.contact_id@ == "__global__"@),
    {
        let marker = String::from_str("__global__");
        self.contact_id == marker
    }
}

/// Contact information as the tool interface reports it.
#[derive(Debug, Clone)]
pub struct ContactInfo {
    pub id: String,
    pub name: Option<String>,
    pub phone: Option<String>,
    pub contact_type: Option<String>,
    pub unread_count: i32,
    pub is_pinned: bool,
}

impl ContactInfo {
    /// The report of a stored contact: the same fields, with the pin
    /// timestamp collapsed to a flag.
    pub fn from_stored(c: StoredContact) -> (r: Self)
        ensures
            r.id == c.id,
            r.name == c.name,
            r.phone == c.phone,
            r.contact_type == c.contact_type,
            r.unread_count == c.unread_count,
            r.is_pinned == (c.pinned_at is Some),
    {
        let pinned = match c.pinned_at {
            Some(_) => true,
            None => false,
        };
        ContactInfo {
            id: c.id,
            name: c.name,
            phone: c.phone,
            contact_type: c.contact_type,
            unread_count: c.unread_count,
            is_pinned: pinned,
        }
    }
}

/// Message information as the tool interface reports it.
#[derive(Debug, Clone)]
pub struct MessageInfo {
    pub id: String,
    pub timestamp: i64,
    pub is_from_me: bool,
    pub sender_name: Option<String>,
    pub text: Option<String>,
    pub translated_text: Option<String>,
    pub content_type: String,
}

/// A cached profile picture.
#[derive(Debug, Clone)]
pub struct ProfilePicture {
    pub url: Option<String>,
    pub fetched_at: i64,
}

/// Send message request body.
#[derive(Debug, Clone)]
pub struct SendMessageRequest {
    pub contact_id: String,
    pub text: String,
    pub reply_to: Option<String>,
    pub reply_to_sender: Option<String>,
    pub reply_to_text: Option<String>,
}

/// Send message response body.
#[derive(Debug, Clone)]
pub struct SendMessageResponse {
    pub message_id: String,
    pub timestamp: i64,
    pub is_translated: bool,
    pub translated_text: Option<String>,
    pub source_language: Option<String>,
}

/// Send image request body.
#[derive(Debug, Clone)]
pub struct SendImageRequest {
    pub contact_id: String,
    pub media_data: String,
    pub mime_type: String,
    pub caption: Option<String>,
    pub reply_to: Option<String>,
    pub reply_to_sender: Option<String>,
}

/// Send image response body.
#[derive(Debug, Clone)]
pub struct SendImageResponse {
    pub message_id: String,
    pub timestamp: i64,
}

/// Send reaction request body.
#[derive(Debug, Clone)]
pub struct SendReactionRequest {
    pub contact_id: String,
    pub message_id: String,
    pub sender_jid: Option<String>,
    pub emoji: String,
}

/// Send reaction response body.
#[derive(Debug, Clone)]
pub struct SendReactionResponse {
    pub success: bool,
}

/// Translate message request body.
#[derive(Debug, Clone)]
pub struct TranslateMessageRequest {
    pub text: String,
    pub message_id: String,
    pub contact_id: String,
}

/// Translate message response body.
#[derive(Debug, Clone)]
pub struct TranslateMessageResponse {
    pub success: bool,
    pub translated_text: Option<String>,
    pub source_language: Option<String>,
    pub error: Option<String>,
}

/// Compose-assist request body.
#[derive(Debug, Clone)]
pub struct AiComposeRequest {
    pub prompt: String,
    pub reply_to_text: Option<String>,
    pub reply_to_sender: Option<String>,
    pub reply_to_image: Option<String>,
    pub reply_to_image_type: Option<String>,
}

/// Auth requirement response body.
#[derive(Debug, Clone)]
pub struct AuthCheckResponse {
    pub required: bool,
}

/// Auth request body.
#[derive(Debug, Clone)]
pub struct AuthRequest {
    pub password: String,
}

/// Auth response body.
#[derive(Debug, Clone)]
pub struct AuthResponse {
    pub success: bool,
    pub token: Option<String>,
    pub error: Option<String>,
}

} // verus!

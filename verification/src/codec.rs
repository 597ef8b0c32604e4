//! The wire codec: how events and commands become JSON lines and come
//! back out of them.
//!
//! Encoding is canonical: members in a fixed order, unset optional
//! members omitted entirely (never emitted as null), strings escaped so
//! that no line ever holds an embedded newline. Decoding accepts any
//! member order and surplus members; a line that does not decode to a
//! known event falls back to a warning log event carrying the line.

use vstd::prelude::*;

use crate::json::{
    fields_view, field_get, print_obj, parse_obj, print_object, parse_object, bytes_eq, wf_fields,
    wf_field, wf_value, lemma_parse_print_obj, JsonField, JsonValue, SpecField, SpecValue,
};
use crate::protocol::{
    opt_bytes_view, opt_int_view, BridgeCommand, BridgeEvent, ChatPresenceState, ConnectionState,
    SpecCommand, SpecEvent,
};
use crate::wire::{
    k_caption, k_caption_v, k_chat_id, k_chat_id_v, k_code, k_code_v, k_data, k_data_v, k_emoji,
    k_emoji_v, k_error, k_error_v, k_id, k_id_v, k_jid, k_jid_v, k_level, k_level_v, k_media_data,
    k_media_data_v, k_message, k_message_id, k_message_id_v, k_message_v, k_mime_type,
    k_mime_type_v, k_name, k_name_v, k_phone, k_phone_v, k_platform, k_platform_v, k_reason,
    k_reason_v, k_reply_to, k_reply_to_sender, k_reply_to_sender_v, k_reply_to_v, k_request_id,
    k_request_id_v, k_sender_jid, k_sender_jid_v, k_state, k_state_v, k_success, k_success_v,
    k_text, k_text_v, k_timestamp, k_timestamp_v, k_to, k_to_v, k_type, k_type_v, k_url, k_url_v,
    k_user_id, k_user_id_v, m_parse_failed, m_parse_failed_v, t_chat_presence, t_chat_presence_v,
    t_connected, t_connected_v, t_connecting, t_connecting_v, t_connection_state,
    t_connection_state_v, t_disconnect, t_disconnect_v, t_disconnected, t_disconnected_v, t_error,
    t_error_v, t_get_profile_picture, t_get_profile_picture_v, t_log, t_log_v, t_logged_out,
    t_logged_out_v, t_logout, t_logout_v, t_mark_as_read, t_mark_as_read_v, t_message, t_message_v,
    t_paused, t_paused_v, t_profile_picture, t_profile_picture_v, t_qr, t_qr_v, t_reconnecting,
    t_reconnecting_v, t_recording, t_recording_v, t_send, t_send_image, t_send_image_v,
    t_send_reaction, t_send_reaction_v, t_send_result, t_send_result_v, t_send_v, t_typing,
    t_typing_v, t_warn, t_warn_v,
};

verus! {

/// The wire tag of a connection state.
pub open spec fn state_tag(s: ConnectionState) -> Seq<u8> {
    match s {
        ConnectionState::Connecting => t_connecting(),
        ConnectionState::Connected => t_connected(),
        ConnectionState::Disconnected => t_disconnected(),
        ConnectionState::Reconnecting => t_reconnecting(),
        ConnectionState::LoggedOut => t_logged_out(),
    }
}

/// The connection state named by a wire tag.
pub open spec fn state_of_tag(s: Seq<u8>) -> Option<ConnectionState> {
    if s == t_connecting() {
        Some(ConnectionState::Connecting)
    } else if s == t_connected() {
        Some(ConnectionState::Connected)
    } else if s == t_disconnected() {
        Some(ConnectionState::Disconnected)
    } else if s == t_reconnecting() {
        Some(ConnectionState::Reconnecting)
    } else if s == t_logged_out() {
        Some(ConnectionState::LoggedOut)
    } else {
        None
    }
}

/// The wire tag of a chat presence state.
pub open spec fn presence_tag(s: ChatPresenceState) -> Seq<u8> {
    match s {
        ChatPresenceState::Typing => t_typing(),
        ChatPresenceState::Paused => t_paused(),
        ChatPresenceState::Recording => t_recording(),
    }
}

/// The chat presence state named by a wire tag.
pub open spec fn presence_of_tag(s: Seq<u8>) -> Option<ChatPresenceState> {
    if s == t_typing() {
        Some(ChatPresenceState::Typing)
    } else if s == t_paused() {
        Some(ChatPresenceState::Paused)
    } else if s == t_recording() {
        Some(ChatPresenceState::Recording)
    } else {
        None
    }
}

/// A member with a string value.
pub open spec fn sf_str(k: Seq<u8>, s: Seq<u8>) -> SpecField {
    SpecField { key: k, value: SpecValue::Str(s) }
}

/// A member with an integer value.
pub open spec fn sf_int(k: Seq<u8>, i: int) -> SpecField {
    SpecField { key: k, value: SpecValue::Int(i) }
}

/// The members an optional string contributes: one or none.
pub open spec fn opt_str_fields(k: Seq<u8>, o: Option<Seq<u8>>) -> Seq<SpecField> {
    match o {
        Some(s) => seq![sf_str(k, s)],
        None => Seq::empty(),
    }
}

/// The members an optional integer contributes: one or none.
pub open spec fn opt_int_fields(k: Seq<u8>, o: Option<int>) -> Seq<SpecField> {
    match o {
        Some(i) => seq![sf_int(k, i)],
        None => Seq::empty(),
    }
}

/// The canonical member list of an event. The opaque message payload
/// is not printed member by member and has no list.
pub open spec fn event_fields(e: SpecEvent) -> Seq<SpecField> {
    match e {
        SpecEvent::Qr { data } => seq![sf_str(k_type(), t_qr()), sf_str(k_data(), data)],
        SpecEvent::Connected { phone, name, platform } => seq![
            sf_str(k_type(), t_connected()),
            sf_str(k_phone(), phone),
            sf_str(k_name(), name),
        ] + opt_str_fields(k_platform(), platform),
        SpecEvent::ConnectionState { state } => seq![
            sf_str(k_type(), t_connection_state()),
            sf_str(k_state(), state_tag(state)),
        ],
        SpecEvent::Message { raw } => Seq::empty(),
        SpecEvent::SendResult { request_id, success, message_id, timestamp, error } => (seq![
            sf_str(k_type(), t_send_result()),
        ] + opt_int_fields(k_request_id(), request_id) + seq![
            SpecField { key: k_success(), value: SpecValue::Bool(success) },
        ] + opt_str_fields(k_message_id(), message_id) + opt_int_fields(k_timestamp(), timestamp)
            + opt_str_fields(k_error(), error)),
        SpecEvent::ProfilePicture { request_id, jid, url, id, error } => (seq![
            sf_str(k_type(), t_profile_picture()),
            sf_int(k_request_id(), request_id),
            sf_str(k_jid(), jid),
        ] + opt_str_fields(k_url(), url) + opt_str_fields(k_id(), id) + opt_str_fields(
            k_error(),
            error,
        )),
        SpecEvent::ChatPresence { chat_id, user_id, state } => seq![
            sf_str(k_type(), t_chat_presence()),
            sf_str(k_chat_id(), chat_id),
            sf_str(k_user_id(), user_id),
            sf_str(k_state(), presence_tag(state)),
        ],
        SpecEvent::Error { code, message } => seq![
            sf_str(k_type(), t_error()),
            sf_str(k_code(), code),
            sf_str(k_message(), message),
        ],
        SpecEvent::Log { level, message } => seq![
            sf_str(k_type(), t_log()),
            sf_str(k_level(), level),
            sf_str(k_message(), message),
        ],
        SpecEvent::LoggedOut { reason } => seq![
            sf_str(k_type(), t_logged_out()),
            sf_str(k_reason(), reason),
        ],
        SpecEvent::MarkAsRead { chat_id } => seq![
            sf_str(k_type(), t_mark_as_read()),
            sf_str(k_chat_id(), chat_id),
        ],
    }
}

/// The encoded line of an event: the opaque message payload passes
/// through verbatim, every other variant is printed canonically.
pub open spec fn spec_encode_event(e: SpecEvent) -> Seq<u8> {
    match e {
        SpecEvent::Message { raw } => raw,
        _ => print_obj(event_fields(e)),
    }
}

/// The canonical member list of a command.
pub open spec fn command_fields(c: SpecCommand) -> Seq<SpecField> {
    match c {
        SpecCommand::Send { request_id, to, text, reply_to, reply_to_sender } => (seq![
            sf_str(k_type(), t_send()),
        ] + opt_int_fields(k_request_id(), request_id) + seq![
            sf_str(k_to(), to),
            sf_str(k_text(), text),
        ] + opt_str_fields(k_reply_to(), reply_to) + opt_str_fields(
            k_reply_to_sender(),
            reply_to_sender,
        )),
        SpecCommand::SendImage {
            request_id,
            to,
            media_data,
            mime_type,
            caption,
            reply_to,
            reply_to_sender,
        } => (seq![sf_str(k_type(), t_send_image())] + opt_int_fields(k_request_id(), request_id)
            + seq![
            sf_str(k_to(), to),
            sf_str(k_media_data(), media_data),
            sf_str(k_mime_type(), mime_type),
        ] + opt_str_fields(k_caption(), caption) + opt_str_fields(k_reply_to(), reply_to)
            + opt_str_fields(k_reply_to_sender(), reply_to_sender)),
        SpecCommand::SendReaction { request_id, to, message_id, sender_jid, emoji } => (seq![
            sf_str(k_type(), t_send_reaction()),
        ] + opt_int_fields(k_request_id(), request_id) + seq![
            sf_str(k_to(), to),
            sf_str(k_message_id(), message_id),
        ] + opt_str_fields(k_sender_jid(), sender_jid) + seq![sf_str(k_emoji(), emoji)]),
        SpecCommand::GetProfilePicture { request_id, to } => seq![
            sf_str(k_type(), t_get_profile_picture()),
            sf_int(k_request_id(), request_id),
            sf_str(k_to(), to),
        ],
        SpecCommand::Disconnect => seq![sf_str(k_type(), t_disconnect())],
        SpecCommand::Logout => seq![sf_str(k_type(), t_logout())],
    }
}

/// The encoded line of a command.
pub open spec fn spec_encode_command(c: SpecCommand) -> Seq<u8> {
    print_obj(command_fields(c))
}

// ---------------------------------------------------------------------------
// Executable encoding.
// ---------------------------------------------------------------------------

/// Copy a byte vector.
pub fn clone_bytes(v: &Vec<u8>) -> (r: Vec<u8>)
    ensures
        r@ == v@,
{
    let r = vstd::slice::slice_to_vec(v.as_slice());
    proof {
        assert(r@ =~= v@);
    }
    r
}

/// Append the member an optional string contributes.
fn push_opt_str(fs: &mut Vec<JsonField>, k: Vec<u8>, o: &Option<Vec<u8>>)
    ensures
        fields_view(final(fs)@) == fields_view(old(fs)@) + opt_str_fields(
            k@,
            opt_bytes_view(*o),
        ),
{
    match o {
        Some(v) => {
            fs.push(JsonField { key: k, value: JsonValue::Str(clone_bytes(v)) });
            proof {
                assert(fields_view(fs@) =~= fields_view(old(fs)@) + opt_str_fields(
                    k@,
                    opt_bytes_view(*o),
                ));
            }
        },
        None => {
            proof {
                assert(fields_view(fs@) =~= fields_view(old(fs)@) + opt_str_fields(
                    k@,
                    opt_bytes_view(*o),
                ));
            }
        },
    }
}

/// Append the member an optional integer contributes.
fn push_opt_int(fs: &mut Vec<JsonField>, k: Vec<u8>, o: &Option<i64>)
    ensures
        fields_view(final(fs)@) == fields_view(old(fs)@) + opt_int_fields(k@, opt_int_view(*o)),
{
    match o {
        Some(v) => {
            fs.push(JsonField { key: k, value: JsonValue::Int(*v) });
            proof {
                assert(fields_view(fs@) =~= fields_view(old(fs)@) + opt_int_fields(
                    k@,
                    opt_int_view(*o),
                ));
            }
        },
        None => {
            proof {
                assert(fields_view(fs@) =~= fields_view(old(fs)@) + opt_int_fields(
                    k@,
                    opt_int_view(*o),
                ));
            }
        },
    }
}

/// Append a member with a string value.
fn push_str_field(fs: &mut Vec<JsonField>, k: Vec<u8>, v: &Vec<u8>)
    ensures
        fields_view(final(fs)@) == fields_view(old(fs)@) + seq![sf_str(k@, v@)],
{
    fs.push(JsonField { key: k, value: JsonValue::Str(clone_bytes(v)) });
    proof {
        assert(fields_view(fs@) =~= fields_view(old(fs)@) + seq![sf_str(k@, v@)]);
    }
}

/// Append a member with an integer value.
fn push_int_field(fs: &mut Vec<JsonField>, k: Vec<u8>, i: i64)
    ensures
        fields_view(final(fs)@) == fields_view(old(fs)@) + seq![sf_int(k@, i as int)],
{
    fs.push(JsonField { key: k, value: JsonValue::Int(i) });
    proof {
        assert(fields_view(fs@) =~= fields_view(old(fs)@) + seq![sf_int(k@, i as int)]);
    }
}

/// Append a member with a boolean value.
fn push_bool_field(fs: &mut Vec<JsonField>, k: Vec<u8>, b: bool)
    ensures
        fields_view(final(fs)@) == fields_view(old(fs)@) + seq![
            SpecField { key: k@, value: SpecValue::Bool(b) },
        ],
{
    fs.push(JsonField { key: k, value: JsonValue::Bool(b) });
    proof {
        assert(fields_view(fs@) =~= fields_view(old(fs)@) + seq![
            SpecField { key: k@, value: SpecValue::Bool(b) },
        ]);
    }
}

/// The executable wire tag of a connection state.
fn state_tag_v(s: &ConnectionState) -> (r: Vec<u8>)
    ensures
        r@ == state_tag(*s),
{
    match s {
        ConnectionState::Connecting => t_connecting_v(),
        ConnectionState::Connected => t_connected_v(),
        ConnectionState::Disconnected => t_disconnected_v(),
        ConnectionState::Reconnecting => t_reconnecting_v(),
        ConnectionState::LoggedOut => t_logged_out_v(),
    }
}

/// The executable wire tag of a chat presence state.
fn presence_tag_v(s: &ChatPresenceState) -> (r: Vec<u8>)
    ensures
        r@ == presence_tag(*s),
{
    match s {
        ChatPresenceState::Typing => t_typing_v(),
        ChatPresenceState::Paused => t_paused_v(),
        ChatPresenceState::Recording => t_recording_v(),
    }
}

/// Encode an event as its JSON line (without the trailing newline).
pub fn encode_event(e: &BridgeEvent) -> (r: Vec<u8>)
    ensures
        r@ == spec_encode_event(e@),
{
    match e {
        BridgeEvent::Message { raw } => clone_bytes(raw),
        BridgeEvent::Qr { data } => {
            let mut fs: Vec<JsonField> = Vec::new();
            let tag = t_qr_v();
            push_str_field(&mut fs, k_type_v(), &tag);
            push_str_field(&mut fs, k_data_v(), data);
            proof {
                assert(fields_view(fs@) =~= event_fields(e@));
            }
            print_object(&fs)
        },
        BridgeEvent::Connected { phone, name, platform } => {
            let mut fs: Vec<JsonField> = Vec::new();
            let tag = t_connected_v();
            push_str_field(&mut fs, k_type_v(), &tag);
            push_str_field(&mut fs, k_phone_v(), phone);
            push_str_field(&mut fs, k_name_v(), name);
            push_opt_str(&mut fs, k_platform_v(), platform);
            proof {
                assert(fields_view(fs@) =~= event_fields(e@));
            }
            print_object(&fs)
        },
        BridgeEvent::ConnectionState { state } => {
            let mut fs: Vec<JsonField> = Vec::new();
            let tag = t_connection_state_v();
            push_str_field(&mut fs, k_type_v(), &tag);
            let tag = state_tag_v(state);
            push_str_field(&mut fs, k_state_v(), &tag);
            proof {
                assert(fields_view(fs@) =~= event_fields(e@));
            }
            print_object(&fs)
        },
        BridgeEvent::SendResult { request_id, success, message_id, timestamp, error } => {
            let mut fs: Vec<JsonField> = Vec::new();
            let tag = t_send_result_v();
            push_str_field(&mut fs, k_type_v(), &tag);
            push_opt_int(&mut fs, k_request_id_v(), request_id);
            push_bool_field(&mut fs, k_success_v(), *success);
            push_opt_str(&mut fs, k_message_id_v(), message_id);
            push_opt_int(&mut fs, k_timestamp_v(), timestamp);
            push_opt_str(&mut fs, k_error_v(), error);
            proof {
                assert(fields_view(fs@) =~= event_fields(e@));
            }
            print_object(&fs)
        },
        BridgeEvent::ProfilePicture { request_id, jid, url, id, error } => {
            let mut fs: Vec<JsonField> = Vec::new();
            let tag = t_profile_picture_v();
            push_str_field(&mut fs, k_type_v(), &tag);
            push_int_field(&mut fs, k_request_id_v(), *request_id);
            push_str_field(&mut fs, k_jid_v(), jid);
            push_opt_str(&mut fs, k_url_v(), url);
            push_opt_str(&mut fs, k_id_v(), id);
            push_opt_str(&mut fs, k_error_v(), error);
            proof {
                assert(fields_view(fs@) =~= event_fields(e@));
            }
            print_object(&fs)
        },
        BridgeEvent::ChatPresence { chat_id, user_id, state } => {
            let mut fs: Vec<JsonField> = Vec::new();
            let tag = t_chat_presence_v();
            push_str_field(&mut fs, k_type_v(), &tag);
            push_str_field(&mut fs, k_chat_id_v(), chat_id);
            push_str_field(&mut fs, k_user_id_v(), user_id);
            let tag = presence_tag_v(state);
            push_str_field(&mut fs, k_state_v(), &tag);
            proof {
                assert(fields_view(fs@) =~= event_fields(e@));
            }
            print_object(&fs)
        },
        BridgeEvent::Error { code, message } => {
            let mut fs: Vec<JsonField> = Vec::new();
            let tag = t_error_v();
            push_str_field(&mut fs, k_type_v(), &tag);
            push_str_field(&mut fs, k_code_v(), code);
            push_str_field(&mut fs, k_message_v(), message);
            proof {
                assert(fields_view(fs@) =~= event_fields(e@));
            }
            print_object(&fs)
        },
        BridgeEvent::Log { level, message } => {
            let mut fs: Vec<JsonField> = Vec::new();
            let tag = t_log_v();
            push_str_field(&mut fs, k_type_v(), &tag);
            push_str_field(&mut fs, k_level_v(), level);
            push_str_field(&mut fs, k_message_v(), message);
            proof {
                assert(fields_view(fs@) =~= event_fields(e@));
            }
            print_object(&fs)
        },
        BridgeEvent::LoggedOut { reason } => {
            let mut fs: Vec<JsonField> = Vec::new();
            let tag = t_logged_out_v();
            push_str_field(&mut fs, k_type_v(), &tag);
            push_str_field(&mut fs, k_reason_v(), reason);
            proof {
                assert(fields_view(fs@) =~= event_fields(e@));
            }
            print_object(&fs)
        },
        BridgeEvent::MarkAsRead { chat_id } => {
            let mut fs: Vec<JsonField> = Vec::new();
            let tag = t_mark_as_read_v();
            push_str_field(&mut fs, k_type_v(), &tag);
            push_str_field(&mut fs, k_chat_id_v(), chat_id);
            proof {
                assert(fields_view(fs@) =~= event_fields(e@));
            }
            print_object(&fs)
        },
    }
}

/// Encode a command as its JSON line (without the trailing newline).
pub fn encode_command(c: &BridgeCommand) -> (r: Vec<u8>)
    ensures
        r@ == spec_encode_command(c@),
{
    match c {
        BridgeCommand::Send { request_id, to, text, reply_to, reply_to_sender } => {
            let mut fs: Vec<JsonField> = Vec::new();
            let tag = t_send_v();
            push_str_field(&mut fs, k_type_v(), &tag);
            push_opt_int(&mut fs, k_request_id_v(), request_id);
            push_str_field(&mut fs, k_to_v(), to);
            push_str_field(&mut fs, k_text_v(), text);
            push_opt_str(&mut fs, k_reply_to_v(), reply_to);
            push_opt_str(&mut fs, k_reply_to_sender_v(), reply_to_sender);
            proof {
                assert(fields_view(fs@) =~= command_fields(c@));
            }
            print_object(&fs)
        },
        BridgeCommand::SendImage {
            request_id,
            to,
            media_data,
            mime_type,
            caption,
            reply_to,
            reply_to_sender,
        } => {
            let mut fs: Vec<JsonField> = Vec::new();
            let tag = t_send_image_v();
            push_str_field(&mut fs, k_type_v(), &tag);
            push_opt_int(&mut fs, k_request_id_v(), request_id);
            push_str_field(&mut fs, k_to_v(), to);
            push_str_field(&mut fs, k_media_data_v(), media_data);
            push_str_field(&mut fs, k_mime_type_v(), mime_type);
            push_opt_str(&mut fs, k_caption_v(), caption);
            push_opt_str(&mut fs, k_reply_to_v(), reply_to);
            push_opt_str(&mut fs, k_reply_to_sender_v(), reply_to_sender);
            proof {
                assert(fields_view(fs@) =~= command_fields(c@));
            }
            print_object(&fs)
        },
        BridgeCommand::SendReaction { request_id, to, message_id, sender_jid, emoji } => {
            let mut fs: Vec<JsonField> = Vec::new();
            let tag = t_send_reaction_v();
            push_str_field(&mut fs, k_type_v(), &tag);
            push_opt_int(&mut fs, k_request_id_v(), request_id);
            push_str_field(&mut fs, k_to_v(), to);
            push_str_field(&mut fs, k_message_id_v(), message_id);
            push_opt_str(&mut fs, k_sender_jid_v(), sender_jid);
            push_str_field(&mut fs, k_emoji_v(), emoji);
            proof {
                assert(fields_view(fs@) =~= command_fields(c@));
            }
            print_object(&fs)
        },
        BridgeCommand::GetProfilePicture { request_id, to } => {
            let mut fs: Vec<JsonField> = Vec::new();
            let tag = t_get_profile_picture_v();
            push_str_field(&mut fs, k_type_v(), &tag);
            push_int_field(&mut fs, k_request_id_v(), *request_id);
            push_str_field(&mut fs, k_to_v(), to);
            proof {
                assert(fields_view(fs@) =~= command_fields(c@));
            }
            print_object(&fs)
        },
        BridgeCommand::Disconnect => {
            let mut fs: Vec<JsonField> = Vec::new();
            let tag = t_disconnect_v();
            push_str_field(&mut fs, k_type_v(), &tag);
            proof {
                assert(fields_view(fs@) =~= command_fields(c@));
            }
            print_object(&fs)
        },
        BridgeCommand::Logout => {
            let mut fs: Vec<JsonField> = Vec::new();
            let tag = t_logout_v();
            push_str_field(&mut fs, k_type_v(), &tag);
            proof {
                assert(fields_view(fs@) =~= command_fields(c@));
            }
            print_object(&fs)
        },
    }
}

// ---------------------------------------------------------------------------
// Decoding: member lookup and the event/command readers.
// ---------------------------------------------------------------------------

/// The string under a key, if the key is there and holds a string.
pub open spec fn gf_str(fs: Seq<SpecField>, k: Seq<u8>) -> Option<Seq<u8>> {
    match field_get(fs, k) {
        Some(SpecValue::Str(s)) => Some(s),
        _ => None,
    }
}

/// The integer under a key, if the key is there and holds an integer.
pub open spec fn gf_int(fs: Seq<SpecField>, k: Seq<u8>) -> Option<int> {
    match field_get(fs, k) {
        Some(SpecValue::Int(i)) => Some(i),
        _ => None,
    }
}

/// The boolean under a key, if the key is there and holds a boolean.
pub open spec fn gf_bool(fs: Seq<SpecField>, k: Seq<u8>) -> Option<bool> {
    match field_get(fs, k) {
        Some(SpecValue::Bool(b)) => Some(b),
        _ => None,
    }
}

/// An optional string member: absent and null both mean none; any
/// other non-string value is a shape error.
pub open spec fn gf_opt_str(fs: Seq<SpecField>, k: Seq<u8>) -> Option<Option<Seq<u8>>> {
    match field_get(fs, k) {
        None => Some(None),
        Some(SpecValue::Null) => Some(None),
        Some(SpecValue::Str(s)) => Some(Some(s)),
        Some(_) => None,
    }
}

/// An optional integer member: absent and null both mean none.
pub open spec fn gf_opt_int(fs: Seq<SpecField>, k: Seq<u8>) -> Option<Option<int>> {
    match field_get(fs, k) {
        None => Some(None),
        Some(SpecValue::Null) => Some(None),
        Some(SpecValue::Int(i)) => Some(Some(i)),
        Some(_) => None,
    }
}

/// The event named by a member list, if its shape is known. `line` is
/// the whole input, kept verbatim for the opaque message payload.
pub open spec fn event_of_fields(line: Seq<u8>, fs: Seq<SpecField>) -> Option<SpecEvent> {
    match gf_str(fs, k_type()) {
        Some(tag) => {
            if tag == t_qr() {
                match gf_str(fs, k_data()) {
                    Some(d) => Some(SpecEvent::Qr { data: d }),
                    None => None,
                }
            } else if tag == t_connected() {
                match (gf_str(fs, k_phone()), gf_str(fs, k_name()), gf_opt_str(fs, k_platform())) {
                    (Some(p), Some(n), Some(pl)) => Some(
                        SpecEvent::Connected { phone: p, name: n, platform: pl },
                    ),
                    _ => None,
                }
            } else if tag == t_connection_state() {
                match gf_str(fs, k_state()) {
                    Some(st) => match state_of_tag(st) {
                        Some(cs) => Some(SpecEvent::ConnectionState { state: cs }),
                        None => None,
                    },
                    None => None,
                }
            } else if tag == t_message() {
                Some(SpecEvent::Message { raw: line })
            } else if tag == t_send_result() {
                match (
                    gf_opt_int(fs, k_request_id()),
                    gf_bool(fs, k_success()),
                    gf_opt_str(fs, k_message_id()),
                    gf_opt_int(fs, k_timestamp()),
                    gf_opt_str(fs, k_error()),
                ) {
                    (Some(ri), Some(su), Some(mi), Some(ts), Some(er)) => Some(
                        SpecEvent::SendResult {
                            request_id: ri,
                            success: su,
                            message_id: mi,
                            timestamp: ts,
                            error: er,
                        },
                    ),
                    _ => None,
                }
            } else if tag == t_profile_picture() {
                match (
                    gf_int(fs, k_request_id()),
                    gf_str(fs, k_jid()),
                    gf_opt_str(fs, k_url()),
                    gf_opt_str(fs, k_id()),
                    gf_opt_str(fs, k_error()),
                ) {
                    (Some(ri), Some(j), Some(u), Some(idv), Some(er)) => Some(
                        SpecEvent::ProfilePicture {
                            request_id: ri,
                            jid: j,
                            url: u,
                            id: idv,
                            error: er,
                        },
                    ),
                    _ => None,
                }
            } else if tag == t_chat_presence() {
                match (gf_str(fs, k_chat_id()), gf_str(fs, k_user_id()), gf_str(fs, k_state())) {
                    (Some(c), Some(u), Some(st)) => match presence_of_tag(st) {
                        Some(ps) => Some(
                            SpecEvent::ChatPresence { chat_id: c, user_id: u, state: ps },
                        ),
                        None => None,
                    },
                    _ => None,
                }
            } else if tag == t_error() {
                match (gf_str(fs, k_code()), gf_str(fs, k_message())) {
                    (Some(c), Some(m)) => Some(SpecEvent::Error { code: c, message: m }),
                    _ => None,
                }
            } else if tag == t_log() {
                match (gf_str(fs, k_level()), gf_str(fs, k_message())) {
                    (Some(l), Some(m)) => Some(SpecEvent::Log { level: l, message: m }),
                    _ => None,
                }
            } else if tag == t_logged_out() {
                match gf_str(fs, k_reason()) {
                    Some(rr) => Some(SpecEvent::LoggedOut { reason: rr }),
                    None => None,
                }
            } else if tag == t_mark_as_read() {
                match gf_str(fs, k_chat_id()) {
                    Some(c) => Some(SpecEvent::MarkAsRead { chat_id: c }),
                    None => None,
                }
            } else {
                None
            }
        },
        None => None,
    }
}

/// The warning log event a line degrades to when it does not decode.
pub open spec fn log_fallback(line: Seq<u8>) -> SpecEvent {
    SpecEvent::Log { level: t_warn(), message: m_parse_failed() + line }
}

/// What decoding a line yields: the named event, or the fallback.
pub open spec fn spec_decode_event(line: Seq<u8>) -> SpecEvent {
    match parse_obj(line) {
        Some(fs) => match event_of_fields(line, fs) {
            Some(e) => e,
            None => log_fallback(line),
        },
        None => log_fallback(line),
    }
}

/// The command named by a member list, if its shape is known.
pub open spec fn command_of_fields(fs: Seq<SpecField>) -> Option<SpecCommand> {
    match gf_str(fs, k_type()) {
        Some(tag) => {
            if tag == t_send() {
                match (
                    gf_opt_int(fs, k_request_id()),
                    gf_str(fs, k_to()),
                    gf_str(fs, k_text()),
                    gf_opt_str(fs, k_reply_to()),
                    gf_opt_str(fs, k_reply_to_sender()),
                ) {
                    (Some(ri), Some(t), Some(x), Some(rt), Some(rs)) => Some(
                        SpecCommand::Send {
                            request_id: ri,
                            to: t,
                            text: x,
                            reply_to: rt,
                            reply_to_sender: rs,
                        },
                    ),
                    _ => None,
                }
            } else if tag == t_send_image() {
                match (
                    gf_opt_int(fs, k_request_id()),
                    gf_str(fs, k_to()),
                    gf_str(fs, k_media_data()),
                    gf_str(fs, k_mime_type()),
                    gf_opt_str(fs, k_caption()),
                    gf_opt_str(fs, k_reply_to()),
                    gf_opt_str(fs, k_reply_to_sender()),
                ) {
                    (Some(ri), Some(t), Some(md), Some(mt), Some(cp), Some(rt), Some(rs)) => Some(
                        SpecCommand::SendImage {
                            request_id: ri,
                            to: t,
                            media_data: md,
                            mime_type: mt,
                            caption: cp,
                            reply_to: rt,
                            reply_to_sender: rs,
                        },
                    ),
                    _ => None,
                }
            } else if tag == t_send_reaction() {
                match (
                    gf_opt_int(fs, k_request_id()),
                    gf_str(fs, k_to()),
                    gf_str(fs, k_message_id()),
                    gf_opt_str(fs, k_sender_jid()),
                    gf_str(fs, k_emoji()),
                ) {
                    (Some(ri), Some(t), Some(mi), Some(sj), Some(em)) => Some(
                        SpecCommand::SendReaction {
                            request_id: ri,
                            to: t,
                            message_id: mi,
                            sender_jid: sj,
                            emoji: em,
                        },
                    ),
                    _ => None,
                }
            } else if tag == t_get_profile_picture() {
                match (gf_int(fs, k_request_id()), gf_str(fs, k_to())) {
                    (Some(ri), Some(t)) => Some(
                        SpecCommand::GetProfilePicture { request_id: ri, to: t },
                    ),
                    _ => None,
                }
            } else if tag == t_disconnect() {
                Some(SpecCommand::Disconnect)
            } else if tag == t_logout() {
                Some(SpecCommand::Logout)
            } else {
                None
            }
        },
        None => None,
    }
}

/// What decoding a command line yields, if anything.
pub open spec fn spec_decode_command(line: Seq<u8>) -> Option<SpecCommand> {
    match parse_obj(line) {
        Some(fs) => command_of_fields(fs),
        None => None,
    }
}

// ---------------------------------------------------------------------------
// The codec round trip: decoding an encoded message gives it back.
// ---------------------------------------------------------------------------

/// Lookup finds the member at `i` when no earlier member has the key.
pub proof fn lemma_field_get_at(fs: Seq<SpecField>, k: Seq<u8>, i: int)
    requires
        0 <= i < fs.len(),
        fs[i].key == k,
        forall|j: int| 0 <= j < i ==> (#[trigger] fs[j]).key != k,
    ensures
        field_get(fs, k) == Some(fs[i].value),
    decreases i,
{
    if i > 0 {
        assert(fs[0].key != k);
        lemma_field_get_at(fs.drop_first(), k, i - 1);
    }
}

/// Lookup misses when no member has the key.
pub proof fn lemma_field_get_absent(fs: Seq<SpecField>, k: Seq<u8>)
    requires
        forall|j: int| 0 <= j < fs.len() ==> (#[trigger] fs[j]).key != k,
    ensures
        field_get(fs, k) is None,
    decreases fs.len(),
{
    if fs.len() > 0 {
        lemma_field_get_absent(fs.drop_first(), k);
    }
}

/// What an event may hold so that its encoding decodes back to it:
/// integers within the wire range, and an opaque message payload that
/// itself reads back as a message line.
pub open spec fn wf_event(e: SpecEvent) -> bool {
    match e {
        SpecEvent::Message { raw } => parse_obj(raw) matches Some(fs) && gf_str(fs, k_type())
            == Some(t_message()),
        SpecEvent::SendResult { request_id, timestamp, .. } => {
            &&& (request_id matches Some(i) ==> i64::MIN <= i <= i64::MAX)
            &&& (timestamp matches Some(i) ==> i64::MIN <= i <= i64::MAX)
        },
        SpecEvent::ProfilePicture { request_id, .. } => i64::MIN <= request_id <= i64::MAX,
        _ => true,
    }
}

/// What a command may hold so that its encoding decodes back to it.
pub open spec fn wf_command(c: SpecCommand) -> bool {
    match c {
        SpecCommand::Send { request_id, .. } => request_id matches Some(i) ==> i64::MIN <= i
            <= i64::MAX,
        SpecCommand::SendImage { request_id, .. } => request_id matches Some(i) ==> i64::MIN <= i
            <= i64::MAX,
        SpecCommand::SendReaction { request_id, .. } => request_id matches Some(i) ==> i64::MIN
            <= i <= i64::MAX,
        SpecCommand::GetProfilePicture { request_id, .. } => i64::MIN <= request_id <= i64::MAX,
        _ => true,
    }
}

/// Lookup over a concatenation: the left part wins.
proof fn lemma_field_get_append(a: Seq<SpecField>, b: Seq<SpecField>, k: Seq<u8>)
    ensures
        field_get(a + b, k) == (match field_get(a, k) {
            Some(v) => Some(v),
            None => field_get(b, k),
        }),
    decreases a.len(),
{
    if a.len() == 0 {
        assert(a + b =~= b);
    } else {
        assert((a + b)[0] == a[0]);
        assert((a + b).drop_first() =~= a.drop_first() + b);
        lemma_field_get_append(a.drop_first(), b, k);
    }
}

/// Lookup in a one-member list.
proof fn lemma_field_get_single(f: SpecField, k: Seq<u8>)
    ensures
        field_get(seq![f], k) == (if f.key == k {
            Some(f.value)
        } else {
            None::<SpecValue>
        }),
{
    assert(seq![f].drop_first() =~= Seq::<SpecField>::empty());
    assert(field_get(Seq::<SpecField>::empty(), k) is None);
    assert(seq![f][0] == f);
}

/// Lookup in the members of an optional string.
proof fn lemma_field_get_opt_str(k2: Seq<u8>, o: Option<Seq<u8>>, k: Seq<u8>)
    ensures
        field_get(opt_str_fields(k2, o), k) == (if k2 == k {
            match o {
                Some(s) => Some(SpecValue::Str(s)),
                None => None::<SpecValue>,
            }
        } else {
            None::<SpecValue>
        }),
{
    match o {
        Some(s) => lemma_field_get_single(sf_str(k2, s), k),
        None => {},
    }
}

/// Lookup in the members of an optional integer.
proof fn lemma_field_get_opt_int(k2: Seq<u8>, o: Option<int>, k: Seq<u8>)
    ensures
        field_get(opt_int_fields(k2, o), k) == (if k2 == k {
            match o {
                Some(i) => Some(SpecValue::Int(i)),
                None => None::<SpecValue>,
            }
        } else {
            None::<SpecValue>
        }),
{
    match o {
        Some(i) => lemma_field_get_single(sf_int(k2, i), k),
        None => {},
    }
}

/// Well-formedness joins over concatenation.
proof fn lemma_wf_append(a: Seq<SpecField>, b: Seq<SpecField>)
    requires
        wf_fields(a),
        wf_fields(b),
    ensures
        wf_fields(a + b),
{
    assert forall|i: int| 0 <= i < (a + b).len() implies #[trigger] wf_field((a + b)[i]) by {
        if i < a.len() {
            assert((a + b)[i] == a[i]);
        } else {
            assert((a + b)[i] == b[i - a.len()]);
        }
    }
}

proof fn lemma_wf_opt_str(k: Seq<u8>, o: Option<Seq<u8>>)
    ensures
        wf_fields(opt_str_fields(k, o)),
{
}

proof fn lemma_wf_opt_int(k: Seq<u8>, o: Option<int>)
    requires
        o matches Some(i) ==> i64::MIN <= i <= i64::MAX,
    ensures
        wf_fields(opt_int_fields(k, o)),
{
}

proof fn lemma_rt_qr(data: Seq<u8>)
    ensures
        (spec_decode_event(spec_encode_event(SpecEvent::Qr { data })) == SpecEvent::Qr { data }),
{
    let e = SpecEvent::Qr { data };
    let fs = event_fields(e);
    assert(wf_fields(fs)) by {
        assert(forall|i: int| 0 <= i < fs.len() ==> #[trigger] wf_field(fs[i]));
    }
    lemma_parse_print_obj(fs);
    lemma_field_get_at(fs, k_type(), 0);
    assert(fs[0].key != k_data());
    lemma_field_get_at(fs, k_data(), 1);
}

proof fn lemma_rt_connected(phone: Seq<u8>, name: Seq<u8>, platform: Option<Seq<u8>>)
    ensures
        (spec_decode_event(spec_encode_event(SpecEvent::Connected { phone, name, platform }))
            == SpecEvent::Connected { phone, name, platform }),
{
    let e = SpecEvent::Connected { phone, name, platform };
    let a = seq![
        sf_str(k_type(), t_connected()),
        sf_str(k_phone(), phone),
        sf_str(k_name(), name),
    ];
    let pl = opt_str_fields(k_platform(), platform);
    let fs = a + pl;
    assert(event_fields(e) == fs);
    assert(wf_fields(a)) by {
        assert(forall|i: int| 0 <= i < a.len() ==> #[trigger] wf_field(a[i]));
    }
    lemma_wf_opt_str(k_platform(), platform);
    lemma_wf_append(a, pl);
    lemma_parse_print_obj(fs);
    lemma_field_get_append(a, pl, k_type());
    lemma_field_get_at(a, k_type(), 0);
    lemma_field_get_append(a, pl, k_phone());
    lemma_field_get_at(a, k_phone(), 1);
    lemma_field_get_append(a, pl, k_name());
    lemma_field_get_at(a, k_name(), 2);
    lemma_field_get_append(a, pl, k_platform());
    lemma_field_get_absent(a, k_platform());
    lemma_field_get_opt_str(k_platform(), platform, k_platform());
}

proof fn lemma_rt_connection_state(state: ConnectionState)
    ensures
        (spec_decode_event(spec_encode_event(SpecEvent::ConnectionState { state }))
            == SpecEvent::ConnectionState { state }),
{
    let e = SpecEvent::ConnectionState { state };
    let fs = event_fields(e);
    assert(wf_fields(fs)) by {
        assert(forall|i: int| 0 <= i < fs.len() ==> #[trigger] wf_field(fs[i]));
    }
    lemma_parse_print_obj(fs);
    lemma_field_get_at(fs, k_type(), 0);
    lemma_field_get_at(fs, k_state(), 1);
}

proof fn lemma_rt_message(raw: Seq<u8>)
    requires
        parse_obj(raw) matches Some(fs) && gf_str(fs, k_type()) == Some(t_message()),
    ensures
        (spec_decode_event(spec_encode_event(SpecEvent::Message { raw })) == SpecEvent::Message {
            raw,
        }),
{
}

#[verifier::rlimit(100)]
#[verifier::spinoff_prover]
proof fn lemma_rt_send_result(
    request_id: Option<int>,
    success: bool,
    message_id: Option<Seq<u8>>,
    timestamp: Option<int>,
    error: Option<Seq<u8>>,
)
    requires
        request_id matches Some(i) ==> i64::MIN <= i <= i64::MAX,
        timestamp matches Some(i) ==> i64::MIN <= i <= i64::MAX,
    ensures
        (spec_decode_event(
            spec_encode_event(
                SpecEvent::SendResult { request_id, success, message_id, timestamp, error },
            ),
        ) == SpecEvent::SendResult { request_id, success, message_id, timestamp, error }),
{
    let e = SpecEvent::SendResult { request_id, success, message_id, timestamp, error };
    let a0 = seq![sf_str(k_type(), t_send_result())];
    let ri = opt_int_fields(k_request_id(), request_id);
    let a1 = a0 + ri;
    let suf = SpecField { key: k_success(), value: SpecValue::Bool(success) };
    let su = seq![suf];
    let a2 = a1 + su;
    let mi = opt_str_fields(k_message_id(), message_id);
    let a3 = a2 + mi;
    let ts = opt_int_fields(k_timestamp(), timestamp);
    let a4 = a3 + ts;
    let er = opt_str_fields(k_error(), error);
    let fs = a4 + er;
    assert(event_fields(e) == fs);
    assert(k_type().len() == 4);
    assert(k_request_id().len() == 10);
    assert(k_success().len() == 7);
    assert(k_message_id().len() == 10);
    assert(k_timestamp().len() == 9);
    assert(k_error().len() == 5);
    assert(k_message_id() != k_request_id()) by {
        assert(k_message_id()[0] == 0x6d && k_request_id()[0] == 0x72);
    }
    assert(wf_fields(a0)) by {
        assert(forall|i: int| 0 <= i < a0.len() ==> #[trigger] wf_field(a0[i]));
    }
    assert(wf_fields(su)) by {
        assert(forall|i: int| 0 <= i < su.len() ==> #[trigger] wf_field(su[i]));
    }
    lemma_wf_opt_int(k_request_id(), request_id);
    lemma_wf_opt_str(k_message_id(), message_id);
    lemma_wf_opt_int(k_timestamp(), timestamp);
    lemma_wf_opt_str(k_error(), error);
    lemma_wf_append(a0, ri);
    lemma_wf_append(a1, su);
    lemma_wf_append(a2, mi);
    lemma_wf_append(a3, ts);
    lemma_wf_append(a4, er);
    lemma_parse_print_obj(fs);
    lemma_field_get_append(a4, er, k_type());
    lemma_field_get_append(a3, ts, k_type());
    lemma_field_get_append(a2, mi, k_type());
    lemma_field_get_append(a1, su, k_type());
    lemma_field_get_append(a0, ri, k_type());
    lemma_field_get_at(a0, k_type(), 0);
    lemma_field_get_append(a4, er, k_request_id());
    lemma_field_get_append(a3, ts, k_request_id());
    lemma_field_get_append(a2, mi, k_request_id());
    lemma_field_get_append(a1, su, k_request_id());
    lemma_field_get_append(a0, ri, k_request_id());
    lemma_field_get_absent(a0, k_request_id());
    lemma_field_get_opt_int(k_request_id(), request_id, k_request_id());
    lemma_field_get_single(suf, k_request_id());
    lemma_field_get_opt_str(k_message_id(), message_id, k_request_id());
    lemma_field_get_opt_int(k_timestamp(), timestamp, k_request_id());
    lemma_field_get_opt_str(k_error(), error, k_request_id());
    lemma_field_get_append(a4, er, k_success());
    lemma_field_get_append(a3, ts, k_success());
    lemma_field_get_append(a2, mi, k_success());
    lemma_field_get_append(a1, su, k_success());
    lemma_field_get_append(a0, ri, k_success());
    lemma_field_get_absent(a0, k_success());
    lemma_field_get_opt_int(k_request_id(), request_id, k_success());
    lemma_field_get_single(suf, k_success());
    lemma_field_get_append(a4, er, k_message_id());
    lemma_field_get_append(a3, ts, k_message_id());
    lemma_field_get_append(a2, mi, k_message_id());
    lemma_field_get_append(a1, su, k_message_id());
    lemma_field_get_append(a0, ri, k_message_id());
    lemma_field_get_absent(a0, k_message_id());
    lemma_field_get_opt_int(k_request_id(), request_id, k_message_id());
    lemma_field_get_single(suf, k_message_id());
    lemma_field_get_opt_str(k_message_id(), message_id, k_message_id());
    lemma_field_get_opt_int(k_timestamp(), timestamp, k_message_id());
    lemma_field_get_opt_str(k_error(), error, k_message_id());
    lemma_field_get_append(a4, er, k_timestamp());
    lemma_field_get_append(a3, ts, k_timestamp());
    lemma_field_get_append(a2, mi, k_timestamp());
    lemma_field_get_append(a1, su, k_timestamp());
    lemma_field_get_append(a0, ri, k_timestamp());
    lemma_field_get_absent(a0, k_timestamp());
    lemma_field_get_opt_int(k_request_id(), request_id, k_timestamp());
    lemma_field_get_single(suf, k_timestamp());
    lemma_field_get_opt_str(k_message_id(), message_id, k_timestamp());
    lemma_field_get_opt_int(k_timestamp(), timestamp, k_timestamp());
    lemma_field_get_opt_str(k_error(), error, k_timestamp());
    lemma_field_get_append(a4, er, k_error());
    lemma_field_get_append(a3, ts, k_error());
    lemma_field_get_append(a2, mi, k_error());
    lemma_field_get_append(a1, su, k_error());
    lemma_field_get_append(a0, ri, k_error());
    lemma_field_get_absent(a0, k_error());
    lemma_field_get_opt_int(k_request_id(), request_id, k_error());
    lemma_field_get_single(suf, k_error());
    lemma_field_get_opt_str(k_message_id(), message_id, k_error());
    lemma_field_get_opt_int(k_timestamp(), timestamp, k_error());
    lemma_field_get_opt_str(k_error(), error, k_error());
}

#[verifier::rlimit(100)]
#[verifier::spinoff_prover]
proof fn lemma_rt_profile_picture(
    request_id: int,
    jid: Seq<u8>,
    url: Option<Seq<u8>>,
    id: Option<Seq<u8>>,
    error: Option<Seq<u8>>,
)
    requires
        i64::MIN <= request_id <= i64::MAX,
    ensures
        (spec_decode_event(
            spec_encode_event(SpecEvent::ProfilePicture { request_id, jid, url, id, error }),
        ) == SpecEvent::ProfilePicture { request_id, jid, url, id, error }),
{
    let e = SpecEvent::ProfilePicture { request_id, jid, url, id, error };
    let a0 = seq![
        sf_str(k_type(), t_profile_picture()),
        sf_int(k_request_id(), request_id),
        sf_str(k_jid(), jid),
    ];
    let ur = opt_str_fields(k_url(), url);
    let a1 = a0 + ur;
    let idf = opt_str_fields(k_id(), id);
    let a2 = a1 + idf;
    let er = opt_str_fields(k_error(), error);
    let fs = a2 + er;
    assert(event_fields(e) == fs);
    assert(k_type().len() == 4);
    assert(k_request_id().len() == 10);
    assert(k_jid().len() == 3);
    assert(k_url().len() == 3);
    assert(k_id().len() == 2);
    assert(k_error().len() == 5);
    assert(k_jid() != k_url()) by {
        assert(k_jid()[0] == 0x6a && k_url()[0] == 0x75);
    }
    assert(wf_fields(a0)) by {
        assert(forall|i: int| 0 <= i < a0.len() ==> #[trigger] wf_field(a0[i]));
    }
    lemma_wf_opt_str(k_url(), url);
    lemma_wf_opt_str(k_id(), id);
    lemma_wf_opt_str(k_error(), error);
    lemma_wf_append(a0, ur);
    lemma_wf_append(a1, idf);
    lemma_wf_append(a2, er);
    lemma_parse_print_obj(fs);
    lemma_field_get_append(a2, er, k_type());
    lemma_field_get_append(a1, idf, k_type());
    lemma_field_get_append(a0, ur, k_type());
    lemma_field_get_at(a0, k_type(), 0);
    lemma_field_get_append(a2, er, k_request_id());
    lemma_field_get_append(a1, idf, k_request_id());
    lemma_field_get_append(a0, ur, k_request_id());
    lemma_field_get_at(a0, k_request_id(), 1);
    lemma_field_get_append(a2, er, k_jid());
    lemma_field_get_append(a1, idf, k_jid());
    lemma_field_get_append(a0, ur, k_jid());
    lemma_field_get_at(a0, k_jid(), 2);
    lemma_field_get_append(a2, er, k_url());
    lemma_field_get_append(a1, idf, k_url());
    lemma_field_get_append(a0, ur, k_url());
    lemma_field_get_absent(a0, k_url());
    assert(k_jid() != k_url()) by {
        assert(k_jid()[0] == 0x6a && k_url()[0] == 0x75);
    }
    lemma_field_get_opt_str(k_url(), url, k_url());
    lemma_field_get_opt_str(k_id(), id, k_url());
    lemma_field_get_opt_str(k_error(), error, k_url());
    lemma_field_get_append(a2, er, k_id());
    lemma_field_get_append(a1, idf, k_id());
    lemma_field_get_append(a0, ur, k_id());
    lemma_field_get_absent(a0, k_id());
    lemma_field_get_opt_str(k_url(), url, k_id());
    lemma_field_get_opt_str(k_id(), id, k_id());
    lemma_field_get_opt_str(k_error(), error, k_id());
    lemma_field_get_append(a2, er, k_error());
    lemma_field_get_append(a1, idf, k_error());
    lemma_field_get_append(a0, ur, k_error());
    lemma_field_get_absent(a0, k_error());
    lemma_field_get_opt_str(k_url(), url, k_error());
    lemma_field_get_opt_str(k_id(), id, k_error());
    lemma_field_get_opt_str(k_error(), error, k_error());
}

proof fn lemma_rt_chat_presence(chat_id: Seq<u8>, user_id: Seq<u8>, state: ChatPresenceState)
    ensures
        (spec_decode_event(
            spec_encode_event(SpecEvent::ChatPresence { chat_id, user_id, state }),
        ) == SpecEvent::ChatPresence { chat_id, user_id, state }),
{
    let e = SpecEvent::ChatPresence { chat_id, user_id, state };
    let fs = event_fields(e);
    assert(wf_fields(fs)) by {
        assert(forall|i: int| 0 <= i < fs.len() ==> #[trigger] wf_field(fs[i]));
    }
    lemma_parse_print_obj(fs);
    lemma_field_get_at(fs, k_type(), 0);
    lemma_field_get_at(fs, k_chat_id(), 1);
    lemma_field_get_at(fs, k_user_id(), 2);
    lemma_field_get_at(fs, k_state(), 3);
}

proof fn lemma_rt_error(code: Seq<u8>, message: Seq<u8>)
    ensures
        (spec_decode_event(spec_encode_event(SpecEvent::Error { code, message }))
            == SpecEvent::Error { code, message }),
{
    let e = SpecEvent::Error { code, message };
    let fs = event_fields(e);
    assert(wf_fields(fs)) by {
        assert(forall|i: int| 0 <= i < fs.len() ==> #[trigger] wf_field(fs[i]));
    }
    lemma_parse_print_obj(fs);
    lemma_field_get_at(fs, k_type(), 0);
    lemma_field_get_at(fs, k_code(), 1);
    lemma_field_get_at(fs, k_message(), 2);
}

proof fn lemma_rt_log(level: Seq<u8>, message: Seq<u8>)
    ensures
        (spec_decode_event(spec_encode_event(SpecEvent::Log { level, message }))
            == SpecEvent::Log { level, message }),
{
    let e = SpecEvent::Log { level, message };
    let fs = event_fields(e);
    assert(wf_fields(fs)) by {
        assert(forall|i: int| 0 <= i < fs.len() ==> #[trigger] wf_field(fs[i]));
    }
    lemma_parse_print_obj(fs);
    lemma_field_get_at(fs, k_type(), 0);
    lemma_field_get_at(fs, k_level(), 1);
    lemma_field_get_at(fs, k_message(), 2);
}

proof fn lemma_rt_logged_out(reason: Seq<u8>)
    ensures
        (spec_decode_event(spec_encode_event(SpecEvent::LoggedOut { reason }))
            == SpecEvent::LoggedOut { reason }),
{
    let e = SpecEvent::LoggedOut { reason };
    let fs = event_fields(e);
    assert(wf_fields(fs)) by {
        assert(forall|i: int| 0 <= i < fs.len() ==> #[trigger] wf_field(fs[i]));
    }
    lemma_parse_print_obj(fs);
    lemma_field_get_at(fs, k_type(), 0);
    lemma_field_get_at(fs, k_reason(), 1);
}

proof fn lemma_rt_mark_as_read(chat_id: Seq<u8>)
    ensures
        (spec_decode_event(spec_encode_event(SpecEvent::MarkAsRead { chat_id }))
            == SpecEvent::MarkAsRead { chat_id }),
{
    let e = SpecEvent::MarkAsRead { chat_id };
    let fs = event_fields(e);
    assert(wf_fields(fs)) by {
        assert(forall|i: int| 0 <= i < fs.len() ==> #[trigger] wf_field(fs[i]));
    }
    lemma_parse_print_obj(fs);
    lemma_field_get_at(fs, k_type(), 0);
    lemma_field_get_at(fs, k_chat_id(), 1);
}

#[verifier::rlimit(100)]
#[verifier::spinoff_prover]
proof fn lemma_rt_send(
    request_id: Option<int>,
    to: Seq<u8>,
    text: Seq<u8>,
    reply_to: Option<Seq<u8>>,
    reply_to_sender: Option<Seq<u8>>,
)
    requires
        request_id matches Some(i) ==> i64::MIN <= i <= i64::MAX,
    ensures
        (spec_decode_command(
            spec_encode_command(
                SpecCommand::Send { request_id, to, text, reply_to, reply_to_sender },
            ),
        ) == Some(SpecCommand::Send { request_id, to, text, reply_to, reply_to_sender })),
{
    let c = SpecCommand::Send { request_id, to, text, reply_to, reply_to_sender };
    let a0 = seq![sf_str(k_type(), t_send())];
    let ri = opt_int_fields(k_request_id(), request_id);
    let a1 = a0 + ri;
    let tt = seq![sf_str(k_to(), to), sf_str(k_text(), text)];
    let a2 = a1 + tt;
    let rt = opt_str_fields(k_reply_to(), reply_to);
    let a3 = a2 + rt;
    let rs = opt_str_fields(k_reply_to_sender(), reply_to_sender);
    let fs = a3 + rs;
    assert(command_fields(c) == fs);
    assert(k_type().len() == 4);
    assert(k_request_id().len() == 10);
    assert(k_to().len() == 2);
    assert(k_text().len() == 4);
    assert(k_reply_to().len() == 8);
    assert(k_reply_to_sender().len() == 15);
    assert(k_type() != k_text()) by {
        assert(k_type()[1] == 0x79 && k_text()[1] == 0x65);
    }
    assert(wf_fields(a0)) by {
        assert(forall|i: int| 0 <= i < a0.len() ==> #[trigger] wf_field(a0[i]));
    }
    assert(wf_fields(tt)) by {
        assert(forall|i: int| 0 <= i < tt.len() ==> #[trigger] wf_field(tt[i]));
    }
    lemma_wf_opt_int(k_request_id(), request_id);
    lemma_wf_opt_str(k_reply_to(), reply_to);
    lemma_wf_opt_str(k_reply_to_sender(), reply_to_sender);
    lemma_wf_append(a0, ri);
    lemma_wf_append(a1, tt);
    lemma_wf_append(a2, rt);
    lemma_wf_append(a3, rs);
    lemma_parse_print_obj(fs);
    lemma_field_get_append(a3, rs, k_type());
    lemma_field_get_append(a2, rt, k_type());
    lemma_field_get_append(a1, tt, k_type());
    lemma_field_get_append(a0, ri, k_type());
    lemma_field_get_at(a0, k_type(), 0);
    lemma_field_get_append(a3, rs, k_request_id());
    lemma_field_get_append(a2, rt, k_request_id());
    lemma_field_get_append(a1, tt, k_request_id());
    lemma_field_get_append(a0, ri, k_request_id());
    lemma_field_get_absent(a0, k_request_id());
    lemma_field_get_opt_int(k_request_id(), request_id, k_request_id());
    lemma_field_get_absent(tt, k_request_id());
    lemma_field_get_opt_str(k_reply_to(), reply_to, k_request_id());
    lemma_field_get_opt_str(k_reply_to_sender(), reply_to_sender, k_request_id());
    lemma_field_get_append(a3, rs, k_to());
    lemma_field_get_append(a2, rt, k_to());
    lemma_field_get_append(a1, tt, k_to());
    lemma_field_get_append(a0, ri, k_to());
    lemma_field_get_absent(a0, k_to());
    lemma_field_get_opt_int(k_request_id(), request_id, k_to());
    lemma_field_get_at(tt, k_to(), 0);
    lemma_field_get_append(a3, rs, k_text());
    lemma_field_get_append(a2, rt, k_text());
    lemma_field_get_append(a1, tt, k_text());
    lemma_field_get_append(a0, ri, k_text());
    lemma_field_get_absent(a0, k_text());
    lemma_field_get_opt_int(k_request_id(), request_id, k_text());
    lemma_field_get_at(tt, k_text(), 1);
    lemma_field_get_append(a3, rs, k_reply_to());
    lemma_field_get_append(a2, rt, k_reply_to());
    lemma_field_get_append(a1, tt, k_reply_to());
    lemma_field_get_append(a0, ri, k_reply_to());
    lemma_field_get_absent(a0, k_reply_to());
    lemma_field_get_opt_int(k_request_id(), request_id, k_reply_to());
    lemma_field_get_absent(tt, k_reply_to());
    lemma_field_get_opt_str(k_reply_to(), reply_to, k_reply_to());
    lemma_field_get_opt_str(k_reply_to_sender(), reply_to_sender, k_reply_to());
    lemma_field_get_append(a3, rs, k_reply_to_sender());
    lemma_field_get_append(a2, rt, k_reply_to_sender());
    lemma_field_get_append(a1, tt, k_reply_to_sender());
    lemma_field_get_append(a0, ri, k_reply_to_sender());
    lemma_field_get_absent(a0, k_reply_to_sender());
    lemma_field_get_opt_int(k_request_id(), request_id, k_reply_to_sender());
    lemma_field_get_absent(tt, k_reply_to_sender());
    lemma_field_get_opt_str(k_reply_to(), reply_to, k_reply_to_sender());
    lemma_field_get_opt_str(k_reply_to_sender(), reply_to_sender, k_reply_to_sender());
}

#[verifier::rlimit(100)]
#[verifier::spinoff_prover]
proof fn lemma_rt_send_image(
    request_id: Option<int>,
    to: Seq<u8>,
    media_data: Seq<u8>,
    mime_type: Seq<u8>,
    caption: Option<Seq<u8>>,
    reply_to: Option<Seq<u8>>,
    reply_to_sender: Option<Seq<u8>>,
)
    requires
        request_id matches Some(i) ==> i64::MIN <= i <= i64::MAX,
    ensures
        (spec_decode_command(
            spec_encode_command(
                SpecCommand::SendImage {
                    request_id,
                    to,
                    media_data,
                    mime_type,
                    caption,
                    reply_to,
                    reply_to_sender,
                },
            ),
        ) == Some(
            SpecCommand::SendImage {
                request_id,
                to,
                media_data,
                mime_type,
                caption,
                reply_to,
                reply_to_sender,
            },
        )),
{
    let c = SpecCommand::SendImage {
        request_id,
        to,
        media_data,
        mime_type,
        caption,
        reply_to,
        reply_to_sender,
    };
    let a0 = seq![sf_str(k_type(), t_send_image())];
    let ri = opt_int_fields(k_request_id(), request_id);
    let a1 = a0 + ri;
    let tt = seq![
        sf_str(k_to(), to),
        sf_str(k_media_data(), media_data),
        sf_str(k_mime_type(), mime_type),
    ];
    let a2 = a1 + tt;
    let cp = opt_str_fields(k_caption(), caption);
    let a3 = a2 + cp;
    let rt = opt_str_fields(k_reply_to(), reply_to);
    let a4 = a3 + rt;
    let rs = opt_str_fields(k_reply_to_sender(), reply_to_sender);
    let fs = a4 + rs;
    assert(command_fields(c) == fs);
    assert(k_type().len() == 4);
    assert(k_request_id().len() == 10);
    assert(k_to().len() == 2);
    assert(k_media_data().len() == 10);
    assert(k_mime_type().len() == 9);
    assert(k_caption().len() == 7);
    assert(k_reply_to().len() == 8);
    assert(k_reply_to_sender().len() == 15);
    assert(k_media_data() != k_request_id()) by {
        assert(k_media_data()[0] == 0x6d && k_request_id()[0] == 0x72);
    }
    assert(wf_fields(a0)) by {
        assert(forall|i: int| 0 <= i < a0.len() ==> #[trigger] wf_field(a0[i]));
    }
    assert(wf_fields(tt)) by {
        assert(forall|i: int| 0 <= i < tt.len() ==> #[trigger] wf_field(tt[i]));
    }
    lemma_wf_opt_int(k_request_id(), request_id);
    lemma_wf_opt_str(k_caption(), caption);
    lemma_wf_opt_str(k_reply_to(), reply_to);
    lemma_wf_opt_str(k_reply_to_sender(), reply_to_sender);
    lemma_wf_append(a0, ri);
    lemma_wf_append(a1, tt);
    lemma_wf_append(a2, cp);
    lemma_wf_append(a3, rt);
    lemma_wf_append(a4, rs);
    lemma_parse_print_obj(fs);
    lemma_field_get_append(a4, rs, k_type());
    lemma_field_get_append(a3, rt, k_type());
    lemma_field_get_append(a2, cp, k_type());
    lemma_field_get_append(a1, tt, k_type());
    lemma_field_get_append(a0, ri, k_type());
    lemma_field_get_at(a0, k_type(), 0);
    lemma_field_get_append(a4, rs, k_request_id());
    lemma_field_get_append(a3, rt, k_request_id());
    lemma_field_get_append(a2, cp, k_request_id());
    lemma_field_get_append(a1, tt, k_request_id());
    lemma_field_get_append(a0, ri, k_request_id());
    lemma_field_get_absent(a0, k_request_id());
    lemma_field_get_opt_int(k_request_id(), request_id, k_request_id());
    lemma_field_get_absent(tt, k_request_id());
    lemma_field_get_opt_str(k_caption(), caption, k_request_id());
    lemma_field_get_opt_str(k_reply_to(), reply_to, k_request_id());
    lemma_field_get_opt_str(k_reply_to_sender(), reply_to_sender, k_request_id());
    lemma_field_get_append(a4, rs, k_to());
    lemma_field_get_append(a3, rt, k_to());
    lemma_field_get_append(a2, cp, k_to());
    lemma_field_get_append(a1, tt, k_to());
    lemma_field_get_append(a0, ri, k_to());
    lemma_field_get_absent(a0, k_to());
    lemma_field_get_opt_int(k_request_id(), request_id, k_to());
    lemma_field_get_at(tt, k_to(), 0);
    lemma_field_get_append(a4, rs, k_media_data());
    lemma_field_get_append(a3, rt, k_media_data());
    lemma_field_get_append(a2, cp, k_media_data());
    lemma_field_get_append(a1, tt, k_media_data());
    lemma_field_get_append(a0, ri, k_media_data());
    lemma_field_get_absent(a0, k_media_data());
    lemma_field_get_opt_int(k_request_id(), request_id, k_media_data());
    lemma_field_get_at(tt, k_media_data(), 1);
    lemma_field_get_append(a4, rs, k_mime_type());
    lemma_field_get_append(a3, rt, k_mime_type());
    lemma_field_get_append(a2, cp, k_mime_type());
    lemma_field_get_append(a1, tt, k_mime_type());
    lemma_field_get_append(a0, ri, k_mime_type());
    lemma_field_get_absent(a0, k_mime_type());
    lemma_field_get_opt_int(k_request_id(), request_id, k_mime_type());
    lemma_field_get_at(tt, k_mime_type(), 2);
    lemma_field_get_append(a4, rs, k_caption());
    lemma_field_get_append(a3, rt, k_caption());
    lemma_field_get_append(a2, cp, k_caption());
    lemma_field_get_append(a1, tt, k_caption());
    lemma_field_get_append(a0, ri, k_caption());
    lemma_field_get_absent(a0, k_caption());
    lemma_field_get_opt_int(k_request_id(), request_id, k_caption());
    lemma_field_get_absent(tt, k_caption());
    lemma_field_get_opt_str(k_caption(), caption, k_caption());
    lemma_field_get_opt_str(k_reply_to(), reply_to, k_caption());
    lemma_field_get_opt_str(k_reply_to_sender(), reply_to_sender, k_caption());
    lemma_field_get_append(a4, rs, k_reply_to());
    lemma_field_get_append(a3, rt, k_reply_to());
    lemma_field_get_append(a2, cp, k_reply_to());
    lemma_field_get_append(a1, tt, k_reply_to());
    lemma_field_get_append(a0, ri, k_reply_to());
    lemma_field_get_absent(a0, k_reply_to());
    lemma_field_get_opt_int(k_request_id(), request_id, k_reply_to());
    lemma_field_get_absent(tt, k_reply_to());
    lemma_field_get_opt_str(k_caption(), caption, k_reply_to());
    lemma_field_get_opt_str(k_reply_to(), reply_to, k_reply_to());
    lemma_field_get_opt_str(k_reply_to_sender(), reply_to_sender, k_reply_to());
    lemma_field_get_append(a4, rs, k_reply_to_sender());
    lemma_field_get_append(a3, rt, k_reply_to_sender());
    lemma_field_get_append(a2, cp, k_reply_to_sender());
    lemma_field_get_append(a1, tt, k_reply_to_sender());
    lemma_field_get_append(a0, ri, k_reply_to_sender());
    lemma_field_get_absent(a0, k_reply_to_sender());
    lemma_field_get_opt_int(k_request_id(), request_id, k_reply_to_sender());
    lemma_field_get_absent(tt, k_reply_to_sender());
    lemma_field_get_opt_str(k_caption(), caption, k_reply_to_sender());
    lemma_field_get_opt_str(k_reply_to(), reply_to, k_reply_to_sender());
    lemma_field_get_opt_str(k_reply_to_sender(), reply_to_sender, k_reply_to_sender());
}

#[verifier::rlimit(100)]
#[verifier::spinoff_prover]
proof fn lemma_rt_send_reaction(
    request_id: Option<int>,
    to: Seq<u8>,
    message_id: Seq<u8>,
    sender_jid: Option<Seq<u8>>,
    emoji: Seq<u8>,
)
    requires
        request_id matches Some(i) ==> i64::MIN <= i <= i64::MAX,
    ensures
        (spec_decode_command(
            spec_encode_command(
                SpecCommand::SendReaction { request_id, to, message_id, sender_jid, emoji },
            ),
        ) == Some(SpecCommand::SendReaction { request_id, to, message_id, sender_jid, emoji })),
{
    let c = SpecCommand::SendReaction { request_id, to, message_id, sender_jid, emoji };
    let a0 = seq![sf_str(k_type(), t_send_reaction())];
    let ri = opt_int_fields(k_request_id(), request_id);
    let a1 = a0 + ri;
    let tm = seq![sf_str(k_to(), to), sf_str(k_message_id(), message_id)];
    let a2 = a1 + tm;
    let sj = opt_str_fields(k_sender_jid(), sender_jid);
    let a3 = a2 + sj;
    let em = seq![sf_str(k_emoji(), emoji)];
    let fs = a3 + em;
    assert(command_fields(c) == fs);
    assert(k_type().len() == 4);
    assert(k_request_id().len() == 10);
    assert(k_to().len() == 2);
    assert(k_message_id().len() == 10);
    assert(k_sender_jid().len() == 10);
    assert(k_emoji().len() == 5);
    assert(k_message_id() != k_request_id()) by {
        assert(k_message_id()[0] == 0x6d && k_request_id()[0] == 0x72);
    }
    assert(k_sender_jid() != k_request_id()) by {
        assert(k_sender_jid()[0] == 0x73 && k_request_id()[0] == 0x72);
    }
    assert(k_sender_jid() != k_message_id()) by {
        assert(k_sender_jid()[0] == 0x73 && k_message_id()[0] == 0x6d);
    }
    assert(wf_fields(a0)) by {
        assert(forall|i: int| 0 <= i < a0.len() ==> #[trigger] wf_field(a0[i]));
    }
    assert(wf_fields(tm)) by {
        assert(forall|i: int| 0 <= i < tm.len() ==> #[trigger] wf_field(tm[i]));
    }
    assert(wf_fields(em)) by {
        assert(forall|i: int| 0 <= i < em.len() ==> #[trigger] wf_field(em[i]));
    }
    lemma_wf_opt_int(k_request_id(), request_id);
    lemma_wf_opt_str(k_sender_jid(), sender_jid);
    lemma_wf_append(a0, ri);
    lemma_wf_append(a1, tm);
    lemma_wf_append(a2, sj);
    lemma_wf_append(a3, em);
    lemma_parse_print_obj(fs);
    lemma_field_get_append(a3, em, k_type());
    lemma_field_get_append(a2, sj, k_type());
    lemma_field_get_append(a1, tm, k_type());
    lemma_field_get_append(a0, ri, k_type());
    lemma_field_get_at(a0, k_type(), 0);
    lemma_field_get_append(a3, em, k_request_id());
    lemma_field_get_append(a2, sj, k_request_id());
    lemma_field_get_append(a1, tm, k_request_id());
    lemma_field_get_append(a0, ri, k_request_id());
    lemma_field_get_absent(a0, k_request_id());
    lemma_field_get_opt_int(k_request_id(), request_id, k_request_id());
    lemma_field_get_absent(tm, k_request_id());
    lemma_field_get_opt_str(k_sender_jid(), sender_jid, k_request_id());
    lemma_field_get_absent(em, k_request_id());
    lemma_field_get_append(a3, em, k_to());
    lemma_field_get_append(a2, sj, k_to());
    lemma_field_get_append(a1, tm, k_to());
    lemma_field_get_append(a0, ri, k_to());
    lemma_field_get_absent(a0, k_to());
    lemma_field_get_opt_int(k_request_id(), request_id, k_to());
    lemma_field_get_at(tm, k_to(), 0);
    lemma_field_get_append(a3, em, k_message_id());
    lemma_field_get_append(a2, sj, k_message_id());
    lemma_field_get_append(a1, tm, k_message_id());
    lemma_field_get_append(a0, ri, k_message_id());
    lemma_field_get_absent(a0, k_message_id());
    lemma_field_get_opt_int(k_request_id(), request_id, k_message_id());
    lemma_field_get_at(tm, k_message_id(), 1);
    lemma_field_get_append(a3, em, k_sender_jid());
    lemma_field_get_append(a2, sj, k_sender_jid());
    lemma_field_get_append(a1, tm, k_sender_jid());
    lemma_field_get_append(a0, ri, k_sender_jid());
    lemma_field_get_absent(a0, k_sender_jid());
    lemma_field_get_opt_int(k_request_id(), request_id, k_sender_jid());
    lemma_field_get_absent(tm, k_sender_jid());
    lemma_field_get_opt_str(k_sender_jid(), sender_jid, k_sender_jid());
    lemma_field_get_absent(em, k_sender_jid());
    lemma_field_get_append(a3, em, k_emoji());
    lemma_field_get_append(a2, sj, k_emoji());
    lemma_field_get_append(a1, tm, k_emoji());
    lemma_field_get_append(a0, ri, k_emoji());
    lemma_field_get_absent(a0, k_emoji());
    lemma_field_get_opt_int(k_request_id(), request_id, k_emoji());
    lemma_field_get_absent(tm, k_emoji());
    lemma_field_get_opt_str(k_sender_jid(), sender_jid, k_emoji());
    lemma_field_get_at(em, k_emoji(), 0);
}

proof fn lemma_rt_get_profile_picture(request_id: int, to: Seq<u8>)
    requires
        i64::MIN <= request_id <= i64::MAX,
    ensures
        (spec_decode_command(
            spec_encode_command(SpecCommand::GetProfilePicture { request_id, to }),
        ) == Some(SpecCommand::GetProfilePicture { request_id, to })),
{
    let c = SpecCommand::GetProfilePicture { request_id, to };
    let fs = command_fields(c);
    assert(wf_fields(fs)) by {
        assert(forall|i: int| 0 <= i < fs.len() ==> #[trigger] wf_field(fs[i]));
    }
    lemma_parse_print_obj(fs);
    lemma_field_get_at(fs, k_type(), 0);
    lemma_field_get_at(fs, k_request_id(), 1);
    lemma_field_get_at(fs, k_to(), 2);
}

proof fn lemma_rt_disconnect()
    ensures
        (spec_decode_command(spec_encode_command(SpecCommand::Disconnect)) == Some(
            SpecCommand::Disconnect,
        )),
{
    let fs = command_fields(SpecCommand::Disconnect);
    assert(wf_fields(fs)) by {
        assert(forall|i: int| 0 <= i < fs.len() ==> #[trigger] wf_field(fs[i]));
    }
    assert(t_disconnect() != t_send_image()) by {
        assert(t_disconnect()[0] == 0x64 && t_send_image()[0] == 0x73);
    }
    lemma_parse_print_obj(fs);
    lemma_field_get_at(fs, k_type(), 0);
}

proof fn lemma_rt_logout()
    ensures
        (spec_decode_command(spec_encode_command(SpecCommand::Logout)) == Some(
            SpecCommand::Logout,
        )),
{
    let fs = command_fields(SpecCommand::Logout);
    assert(wf_fields(fs)) by {
        assert(forall|i: int| 0 <= i < fs.len() ==> #[trigger] wf_field(fs[i]));
    }
    lemma_parse_print_obj(fs);
    lemma_field_get_at(fs, k_type(), 0);
}

/// Malformed input degrades, never fails: a line that is not a JSON
/// object, or not a known event shape, decodes to exactly the warning
/// log event carrying the line — decoding is total, so the pump
/// survives any input.
pub proof fn lemma_malformed_line_falls_back(line: Seq<u8>)
    requires
        match parse_obj(line) {
            Some(fs) => event_of_fields(line, fs) is None,
            None => true,
        },
    ensures
        spec_decode_event(line) == log_fallback(line),
        spec_decode_event(line) matches SpecEvent::Log { level, message } && level == t_warn()
            && message == m_parse_failed() + line,
{
}

/// The canonical member list of a well-formed command is made of
/// well-formed members.
pub proof fn lemma_command_fields_wf(c: SpecCommand)
    requires
        wf_command(c),
    ensures
        wf_fields(command_fields(c)),
{
    match c {
        SpecCommand::Send { request_id, to, text, reply_to, reply_to_sender } => {
            let a0 = seq![sf_str(k_type(), t_send())];
            let tt = seq![sf_str(k_to(), to), sf_str(k_text(), text)];
            assert(wf_fields(a0)) by {
                assert(forall|i: int| 0 <= i < a0.len() ==> #[trigger] wf_field(a0[i]));
            }
            assert(wf_fields(tt)) by {
                assert(forall|i: int| 0 <= i < tt.len() ==> #[trigger] wf_field(tt[i]));
            }
            lemma_wf_opt_int(k_request_id(), request_id);
            lemma_wf_opt_str(k_reply_to(), reply_to);
            lemma_wf_opt_str(k_reply_to_sender(), reply_to_sender);
            let ri = opt_int_fields(k_request_id(), request_id);
            let rt = opt_str_fields(k_reply_to(), reply_to);
            let rs = opt_str_fields(k_reply_to_sender(), reply_to_sender);
            lemma_wf_append(a0, ri);
            lemma_wf_append(a0 + ri, tt);
            lemma_wf_append(a0 + ri + tt, rt);
            lemma_wf_append(a0 + ri + tt + rt, rs);
        },
        SpecCommand::SendImage {
            request_id,
            to,
            media_data,
            mime_type,
            caption,
            reply_to,
            reply_to_sender,
        } => {
            let a0 = seq![sf_str(k_type(), t_send_image())];
            let tt = seq![
                sf_str(k_to(), to),
                sf_str(k_media_data(), media_data),
                sf_str(k_mime_type(), mime_type),
            ];
            assert(wf_fields(a0)) by {
                assert(forall|i: int| 0 <= i < a0.len() ==> #[trigger] wf_field(a0[i]));
            }
            assert(wf_fields(tt)) by {
                assert(forall|i: int| 0 <= i < tt.len() ==> #[trigger] wf_field(tt[i]));
            }
            lemma_wf_opt_int(k_request_id(), request_id);
            lemma_wf_opt_str(k_caption(), caption);
            lemma_wf_opt_str(k_reply_to(), reply_to);
            lemma_wf_opt_str(k_reply_to_sender(), reply_to_sender);
            let ri = opt_int_fields(k_request_id(), request_id);
            let cp = opt_str_fields(k_caption(), caption);
            let rt = opt_str_fields(k_reply_to(), reply_to);
            let rs = opt_str_fields(k_reply_to_sender(), reply_to_sender);
            lemma_wf_append(a0, ri);
            lemma_wf_append(a0 + ri, tt);
            lemma_wf_append(a0 + ri + tt, cp);
            lemma_wf_append(a0 + ri + tt + cp, rt);
            lemma_wf_append(a0 + ri + tt + cp + rt, rs);
        },
        SpecCommand::SendReaction { request_id, to, message_id, sender_jid, emoji } => {
            let a0 = seq![sf_str(k_type(), t_send_reaction())];
            let tm = seq![sf_str(k_to(), to), sf_str(k_message_id(), message_id)];
            let em = seq![sf_str(k_emoji(), emoji)];
            assert(wf_fields(a0)) by {
                assert(forall|i: int| 0 <= i < a0.len() ==> #[trigger] wf_field(a0[i]));
            }
            assert(wf_fields(tm)) by {
                assert(forall|i: int| 0 <= i < tm.len() ==> #[trigger] wf_field(tm[i]));
            }
            assert(wf_fields(em)) by {
                assert(forall|i: int| 0 <= i < em.len() ==> #[trigger] wf_field(em[i]));
            }
            lemma_wf_opt_int(k_request_id(), request_id);
            lemma_wf_opt_str(k_sender_jid(), sender_jid);
            let ri = opt_int_fields(k_request_id(), request_id);
            let sj = opt_str_fields(k_sender_jid(), sender_jid);
            lemma_wf_append(a0, ri);
            lemma_wf_append(a0 + ri, tm);
            lemma_wf_append(a0 + ri + tm, sj);
            lemma_wf_append(a0 + ri + tm + sj, em);
        },
        SpecCommand::GetProfilePicture { request_id, to } => {
            let fs = command_fields(c);
            assert(wf_fields(fs)) by {
                assert(forall|i: int| 0 <= i < fs.len() ==> #[trigger] wf_field(fs[i]));
            }
        },
        SpecCommand::Disconnect => {
            let fs = command_fields(c);
            assert(wf_fields(fs)) by {
                assert(forall|i: int| 0 <= i < fs.len() ==> #[trigger] wf_field(fs[i]));
            }
        },
        SpecCommand::Logout => {
            let fs = command_fields(c);
            assert(wf_fields(fs)) by {
                assert(forall|i: int| 0 <= i < fs.len() ==> #[trigger] wf_field(fs[i]));
            }
        },
    }
}

/// Decoding inverts encoding on every well-formed command.
pub proof fn lemma_command_round_trip(c: SpecCommand)
    requires
        wf_command(c),
    ensures
        spec_decode_command(spec_encode_command(c)) == Some(c),
{
    match c {
        SpecCommand::Send { request_id, to, text, reply_to, reply_to_sender } => {
            lemma_rt_send(request_id, to, text, reply_to, reply_to_sender)
        },
        SpecCommand::SendImage {
            request_id,
            to,
            media_data,
            mime_type,
            caption,
            reply_to,
            reply_to_sender,
        } => {
            lemma_rt_send_image(
                request_id,
                to,
                media_data,
                mime_type,
                caption,
                reply_to,
                reply_to_sender,
            )
        },
        SpecCommand::SendReaction { request_id, to, message_id, sender_jid, emoji } => {
            lemma_rt_send_reaction(request_id, to, message_id, sender_jid, emoji)
        },
        SpecCommand::GetProfilePicture { request_id, to } => lemma_rt_get_profile_picture(
            request_id,
            to,
        ),
        SpecCommand::Disconnect => lemma_rt_disconnect(),
        SpecCommand::Logout => lemma_rt_logout(),
    }
}

/// Decoding inverts encoding on every well-formed event, member for
/// member; optional members that are unset are absent from the line,
/// not emitted as null.
pub proof fn lemma_event_round_trip(e: SpecEvent)
    requires
        wf_event(e),
    ensures
        spec_decode_event(spec_encode_event(e)) == e,
{
    match e {
        SpecEvent::Qr { data } => lemma_rt_qr(data),
        SpecEvent::Connected { phone, name, platform } => lemma_rt_connected(
            phone,
            name,
            platform,
        ),
        SpecEvent::ConnectionState { state } => lemma_rt_connection_state(state),
        SpecEvent::Message { raw } => lemma_rt_message(raw),
        SpecEvent::SendResult { request_id, success, message_id, timestamp, error } => {
            lemma_rt_send_result(request_id, success, message_id, timestamp, error)
        },
        SpecEvent::ProfilePicture { request_id, jid, url, id, error } => {
            lemma_rt_profile_picture(request_id, jid, url, id, error)
        },
        SpecEvent::ChatPresence { chat_id, user_id, state } => lemma_rt_chat_presence(
            chat_id,
            user_id,
            state,
        ),
        SpecEvent::Error { code, message } => lemma_rt_error(code, message),
        SpecEvent::Log { level, message } => lemma_rt_log(level, message),
        SpecEvent::LoggedOut { reason } => lemma_rt_logged_out(reason),
        SpecEvent::MarkAsRead { chat_id } => lemma_rt_mark_as_read(chat_id),
    }
}

// ---------------------------------------------------------------------------
// Executable decoding.
// ---------------------------------------------------------------------------

/// Look a key up from position `i` on; the first match wins.
fn find_field<'a>(fs: &'a Vec<JsonField>, key: &Vec<u8>, i: usize) -> (r: Option<&'a JsonValue>)
    requires
        i <= fs@.len(),
    ensures
        ({
            let g = field_get(fields_view(fs@).skip(i as int), key@);
            match r {
                Some(v) => g == Some(v@),
                None => g is None,
            }
        }),
    decreases fs@.len() - i,
{
    if i >= fs.len() {
        proof {
            assert(fields_view(fs@).skip(i as int).len() == 0);
        }
        return None;
    }
    proof {
        assert(fields_view(fs@).skip(i as int)[0] == fs@[i as int]@);
        assert(fields_view(fs@).skip(i as int).drop_first() =~= fields_view(fs@).skip(i + 1));
    }
    if bytes_eq(&fs[i].key, key) {
        Some(&fs[i].value)
    } else {
        find_field(fs, key, i + 1)
    }
}

/// The string under a key, if present with that type.
fn get_str(fs: &Vec<JsonField>, key: &Vec<u8>) -> (r: Option<Vec<u8>>)
    ensures
        ({
            let g = gf_str(fields_view(fs@), key@);
            match r {
                Some(v) => g == Some(v@),
                None => g is None,
            }
        }),
{
    proof {
        assert(fields_view(fs@).skip(0) =~= fields_view(fs@));
    }
    match find_field(fs, key, 0) {
        Some(v) => match v {
            JsonValue::Str(s) => Some(clone_bytes(s)),
            _ => None,
        },
        None => None,
    }
}

/// The integer under a key, if present with that type.
fn get_int(fs: &Vec<JsonField>, key: &Vec<u8>) -> (r: Option<i64>)
    ensures
        ({
            let g = gf_int(fields_view(fs@), key@);
            match r {
                Some(v) => g == Some(v as int),
                None => g is None,
            }
        }),
{
    proof {
        assert(fields_view(fs@).skip(0) =~= fields_view(fs@));
    }
    match find_field(fs, key, 0) {
        Some(v) => match v {
            JsonValue::Int(i) => Some(*i),
            _ => None,
        },
        None => None,
    }
}

/// The boolean under a key, if present with that type.
fn get_bool(fs: &Vec<JsonField>, key: &Vec<u8>) -> (r: Option<bool>)
    ensures
        ({
            let g = gf_bool(fields_view(fs@), key@);
            match r {
                Some(v) => g == Some(v),
                None => g is None,
            }
        }),
{
    proof {
        assert(fields_view(fs@).skip(0) =~= fields_view(fs@));
    }
    match find_field(fs, key, 0) {
        Some(v) => match v {
            JsonValue::Bool(b) => Some(*b),
            _ => None,
        },
        None => None,
    }
}

/// An optional string member; absent and null both mean none.
fn get_opt_str(fs: &Vec<JsonField>, key: &Vec<u8>) -> (r: Option<Option<Vec<u8>>>)
    ensures
        ({
            let g = gf_opt_str(fields_view(fs@), key@);
            match r {
                Some(o) => g == Some(opt_bytes_view(o)),
                None => g is None,
            }
        }),
{
    proof {
        assert(fields_view(fs@).skip(0) =~= fields_view(fs@));
    }
    match find_field(fs, key, 0) {
        Some(v) => match v {
            JsonValue::Str(s) => Some(Some(clone_bytes(s))),
            JsonValue::Null => Some(None),
            _ => None,
        },
        None => Some(None),
    }
}

/// An optional integer member; absent and null both mean none.
fn get_opt_int(fs: &Vec<JsonField>, key: &Vec<u8>) -> (r: Option<Option<i64>>)
    ensures
        ({
            let g = gf_opt_int(fields_view(fs@), key@);
            match r {
                Some(o) => g == Some(opt_int_view(o)),
                None => g is None,
            }
        }),
{
    proof {
        assert(fields_view(fs@).skip(0) =~= fields_view(fs@));
    }
    match find_field(fs, key, 0) {
        Some(v) => match v {
            JsonValue::Int(i) => Some(Some(*i)),
            JsonValue::Null => Some(None),
            _ => None,
        },
        None => Some(None),
    }
}

/// The connection state named by a wire tag.
fn state_from_tag(st: &Vec<u8>) -> (r: Option<ConnectionState>)
    ensures
        r == state_of_tag(st@),
{
    if bytes_eq(st, &t_connecting_v()) {
        Some(ConnectionState::Connecting)
    } else if bytes_eq(st, &t_connected_v()) {
        Some(ConnectionState::Connected)
    } else if bytes_eq(st, &t_disconnected_v()) {
        Some(ConnectionState::Disconnected)
    } else if bytes_eq(st, &t_reconnecting_v()) {
        Some(ConnectionState::Reconnecting)
    } else if bytes_eq(st, &t_logged_out_v()) {
        Some(ConnectionState::LoggedOut)
    } else {
        None
    }
}

/// The chat presence state named by a wire tag.
fn presence_from_tag(st: &Vec<u8>) -> (r: Option<ChatPresenceState>)
    ensures
        r == presence_of_tag(st@),
{
    if bytes_eq(st, &t_typing_v()) {
        Some(ChatPresenceState::Typing)
    } else if bytes_eq(st, &t_paused_v()) {
        Some(ChatPresenceState::Paused)
    } else if bytes_eq(st, &t_recording_v()) {
        Some(ChatPresenceState::Recording)
    } else {
        None
    }
}

/// The fallback warning event for a line that did not decode.
fn log_fallback_event(line: &Vec<u8>) -> (r: BridgeEvent)
    ensures
        r@ == log_fallback(line@),
{
    let mut msg = m_parse_failed_v();
    msg.extend_from_slice(line.as_slice());
    proof {
        assert(msg@ =~= m_parse_failed() + line@);
    }
    BridgeEvent::Log { level: t_warn_v(), message: msg }
}

/// Read an event out of a parsed member list.
fn event_from_fields(line: &Vec<u8>, fs: &Vec<JsonField>) -> (r: Option<BridgeEvent>)
    ensures
        ({
            let g = event_of_fields(line@, fields_view(fs@));
            match r {
                Some(e) => g == Some(e@),
                None => g is None,
            }
        }),
{
    let tag = match get_str(fs, &k_type_v()) {
        Some(t) => t,
        None => {
            return None;
        },
    };
    if bytes_eq(&tag, &t_qr_v()) {
        match get_str(fs, &k_data_v()) {
            Some(d) => Some(BridgeEvent::Qr { data: d }),
            None => None,
        }
    } else if bytes_eq(&tag, &t_connected_v()) {
        match (get_str(fs, &k_phone_v()), get_str(fs, &k_name_v()), get_opt_str(
            fs,
            &k_platform_v(),
        )) {
            (Some(p), Some(n), Some(pl)) => Some(
                BridgeEvent::Connected { phone: p, name: n, platform: pl },
            ),
            _ => None,
        }
    } else if bytes_eq(&tag, &t_connection_state_v()) {
        match get_str(fs, &k_state_v()) {
            Some(st) => match state_from_tag(&st) {
                Some(cs) => Some(BridgeEvent::ConnectionState { state: cs }),
                None => None,
            },
            None => None,
        }
    } else if bytes_eq(&tag, &t_message_v()) {
        Some(BridgeEvent::Message { raw: clone_bytes(line) })
    } else if bytes_eq(&tag, &t_send_result_v()) {
        match (
            get_opt_int(fs, &k_request_id_v()),
            get_bool(fs, &k_success_v()),
            get_opt_str(fs, &k_message_id_v()),
            get_opt_int(fs, &k_timestamp_v()),
            get_opt_str(fs, &k_error_v()),
        ) {
            (Some(ri), Some(su), Some(mi), Some(ts), Some(er)) => Some(
                BridgeEvent::SendResult {
                    request_id: ri,
                    success: su,
                    message_id: mi,
                    timestamp: ts,
                    error: er,
                },
            ),
            _ => None,
        }
    } else if bytes_eq(&tag, &t_profile_picture_v()) {
        match (
            get_int(fs, &k_request_id_v()),
            get_str(fs, &k_jid_v()),
            get_opt_str(fs, &k_url_v()),
            get_opt_str(fs, &k_id_v()),
            get_opt_str(fs, &k_error_v()),
        ) {
            (Some(ri), Some(j), Some(u), Some(idv), Some(er)) => Some(
                BridgeEvent::ProfilePicture { request_id: ri, jid: j, url: u, id: idv, error: er },
            ),
            _ => None,
        }
    } else if bytes_eq(&tag, &t_chat_presence_v()) {
        match (get_str(fs, &k_chat_id_v()), get_str(fs, &k_user_id_v()), get_str(
            fs,
            &k_state_v(),
        )) {
            (Some(c), Some(u), Some(st)) => match presence_from_tag(&st) {
                Some(ps) => Some(BridgeEvent::ChatPresence { chat_id: c, user_id: u, state: ps }),
                None => None,
            },
            _ => None,
        }
    } else if bytes_eq(&tag, &t_error_v()) {
        match (get_str(fs, &k_code_v()), get_str(fs, &k_message_v())) {
            (Some(c), Some(m)) => Some(BridgeEvent::Error { code: c, message: m }),
            _ => None,
        }
    } else if bytes_eq(&tag, &t_log_v()) {
        match (get_str(fs, &k_level_v()), get_str(fs, &k_message_v())) {
            (Some(l), Some(m)) => Some(BridgeEvent::Log { level: l, message: m }),
            _ => None,
        }
    } else if bytes_eq(&tag, &t_logged_out_v()) {
        match get_str(fs, &k_reason_v()) {
            Some(rr) => Some(BridgeEvent::LoggedOut { reason: rr }),
            None => None,
        }
    } else if bytes_eq(&tag, &t_mark_as_read_v()) {
        match get_str(fs, &k_chat_id_v()) {
            Some(c) => Some(BridgeEvent::MarkAsRead { chat_id: c }),
            None => None,
        }
    } else {
        None
    }
}

/// Decode one line into exactly one event. A line that is not a JSON
/// object, or not a known event shape, yields the warning log event
/// carrying the line; decoding never fails and never panics.
pub fn decode_event(line: &Vec<u8>) -> (r: BridgeEvent)
    ensures
        r@ == spec_decode_event(line@),
{
    match parse_object(line) {
        Some(fs) => match event_from_fields(line, &fs) {
            Some(e) => e,
            None => log_fallback_event(line),
        },
        None => log_fallback_event(line),
    }
}

/// Read a command out of a parsed member list.
fn command_from_fields(fs: &Vec<JsonField>) -> (r: Option<BridgeCommand>)
    ensures
        ({
            let g = command_of_fields(fields_view(fs@));
            match r {
                Some(c) => g == Some(c@),
                None => g is None,
            }
        }),
{
    let tag = match get_str(fs, &k_type_v()) {
        Some(t) => t,
        None => {
            return None;
        },
    };
    if bytes_eq(&tag, &t_send_v()) {
        match (
            get_opt_int(fs, &k_request_id_v()),
            get_str(fs, &k_to_v()),
            get_str(fs, &k_text_v()),
            get_opt_str(fs, &k_reply_to_v()),
            get_opt_str(fs, &k_reply_to_sender_v()),
        ) {
            (Some(ri), Some(t), Some(x), Some(rt), Some(rs)) => Some(
                BridgeCommand::Send {
                    request_id: ri,
                    to: t,
                    text: x,
                    reply_to: rt,
                    reply_to_sender: rs,
                },
            ),
            _ => None,
        }
    } else if bytes_eq(&tag, &t_send_image_v()) {
        match (
            get_opt_int(fs, &k_request_id_v()),
            get_str(fs, &k_to_v()),
            get_str(fs, &k_media_data_v()),
            get_str(fs, &k_mime_type_v()),
            get_opt_str(fs, &k_caption_v()),
            get_opt_str(fs, &k_reply_to_v()),
            get_opt_str(fs, &k_reply_to_sender_v()),
        ) {
            (Some(ri), Some(t), Some(md), Some(mt), Some(cp), Some(rt), Some(rs)) => Some(
                BridgeCommand::SendImage {
                    request_id: ri,
                    to: t,
                    media_data: md,
                    mime_type: mt,
                    caption: cp,
                    reply_to: rt,
                    reply_to_sender: rs,
                },
            ),
            _ => None,
        }
    } else if bytes_eq(&tag, &t_send_reaction_v()) {
        match (
            get_opt_int(fs, &k_request_id_v()),
            get_str(fs, &k_to_v()),
            get_str(fs, &k_message_id_v()),
            get_opt_str(fs, &k_sender_jid_v()),
            get_str(fs, &k_emoji_v()),
        ) {
            (Some(ri), Some(t), Some(mi), Some(sj), Some(em)) => Some(
                BridgeCommand::SendReaction {
                    request_id: ri,
                    to: t,
                    message_id: mi,
                    sender_jid: sj,
                    emoji: em,
                },
            ),
            _ => None,
        }
    } else if bytes_eq(&tag, &t_get_profile_picture_v()) {
        match (get_int(fs, &k_request_id_v()), get_str(fs, &k_to_v())) {
            (Some(ri), Some(t)) => Some(
                BridgeCommand::GetProfilePicture { request_id: ri, to: t },
            ),
            _ => None,
        }
    } else if bytes_eq(&tag, &t_disconnect_v()) {
        Some(BridgeCommand::Disconnect)
    } else if bytes_eq(&tag, &t_logout_v()) {
        Some(BridgeCommand::Logout)
    } else {
        None
    }
}

/// Decode one line into a command, if it names one.
pub fn decode_command(line: &Vec<u8>) -> (r: Option<BridgeCommand>)
    ensures
        ({
            let g = spec_decode_command(line@);
            match r {
                Some(c) => g == Some(c@),
                None => g is None,
            }
        }),
{
    match parse_object(line) {
        Some(fs) => command_from_fields(&fs),
        None => None,
    }
}

} // verus!

//! Byte constants of the wire vocabulary: member keys and tag values.
//!
//! Each name exists twice: a specification-level byte sequence and an
//! executable builder proved to produce exactly those bytes.

use vstd::prelude::*;

verus! {

/// The bytes of `"type"`.
pub open spec fn k_type() -> Seq<u8> {
    seq![0x74u8, 0x79, 0x70, 0x65]
}

pub fn k_type_v() -> (r: Vec<u8>)
    ensures
        r@ == k_type(),
{
    let mut v: Vec<u8> = Vec::new();
    v.push(0x74);
    v.push(0x79);
    v.push(0x70);
    v.push(0x65);
    proof { assert(v@ =~= k_type()); }
    v
}

/// The bytes of `"data"`.
pub open spec fn k_data() -> Seq<u8> {
    seq![0x64u8, 0x61, 0x74, 0x61]
}

pub fn k_data_v() -> (r: Vec<u8>)
    ensures
        r@ == k_data(),
{
    let mut v: Vec<u8> = Vec::new();
    v.push(0x64);
    v.push(0x61);
    v.push(0x74);
    v.push(0x61);
    proof { assert(v@ =~= k_data()); }
    v
}

/// The bytes of `"phone"`.
pub open spec fn k_phone() -> Seq<u8> {
    seq![0x70u8, 0x68, 0x6f, 0x6e, 0x65]
}

pub fn k_phone_v() -> (r: Vec<u8>)
    ensures
        r@ == k_phone(),
{
    let mut v: Vec<u8> = Vec::new();
    v.push(0x70);
    v.push(0x68);
    v.push(0x6f);
    v.push(0x6e);
    v.push(0x65);
    proof { assert(v@ =~= k_phone()); }
    v
}

/// The bytes of `"name"`.
pub open spec fn k_name() -> Seq<u8> {
    seq![0x6eu8, 0x61, 0x6d, 0x65]
}

pub fn k_name_v() -> (r: Vec<u8>)
    ensures
        r@ == k_name(),
{
    let mut v: Vec<u8> = Vec::new();
    v.push(0x6e);
    v.push(0x61);
    v.push(0x6d);
    v.push(0x65);
    proof { assert(v@ =~= k_name()); }
    v
}

/// The bytes of `"platform"`.
pub open spec fn k_platform() -> Seq<u8> {
    seq![0x70u8, 0x6c, 0x61, 0x74, 0x66, 0x6f, 0x72, 0x6d]
}

pub fn k_platform_v() -> (r: Vec<u8>)
    ensures
        r@ == k_platform(),
{
    let mut v: Vec<u8> = Vec::new();
    v.push(0x70);
    v.push(0x6c);
    v.push(0x61);
    v.push(0x74);
    v.push(0x66);
    v.push(0x6f);
    v.push(0x72);
    v.push(0x6d);
    proof { assert(v@ =~= k_platform()); }
    v
}

/// The bytes of `"state"`.
pub open spec fn k_state() -> Seq<u8> {
    seq![0x73u8, 0x74, 0x61, 0x74, 0x65]
}

pub fn k_state_v() -> (r: Vec<u8>)
    ensures
        r@ == k_state(),
{
    let mut v: Vec<u8> = Vec::new();
    v.push(0x73);
    v.push(0x74);
    v.push(0x61);
    v.push(0x74);
    v.push(0x65);
    proof { assert(v@ =~= k_state()); }
    v
}

/// The bytes of `"request_id"`.
pub open spec fn k_request_id() -> Seq<u8> {
    seq![0x72u8, 0x65, 0x71, 0x75, 0x65, 0x73, 0x74, 0x5f, 0x69, 0x64]
}

pub fn k_request_id_v() -> (r: Vec<u8>)
    ensures
        r@ == k_request_id(),
{
    let mut v: Vec<u8> = Vec::new();
    v.push(0x72);
    v.push(0x65);
    v.push(0x71);
    v.push(0x75);
    v.push(0x65);
    v.push(0x73);
    v.push(0x74);
    v.push(0x5f);
    v.push(0x69);
    v.push(0x64);
    proof { assert(v@ =~= k_request_id()); }
    v
}

/// The bytes of `"success"`.
pub open spec fn k_success() -> Seq<u8> {
    seq![0x73u8, 0x75, 0x63, 0x63, 0x65, 0x73, 0x73]
}

pub fn k_success_v() -> (r: Vec<u8>)
    ensures
        r@ == k_success(),
{
    let mut v: Vec<u8> = Vec::new();
    v.push(0x73);
    v.push(0x75);
    v.push(0x63);
    v.push(0x63);
    v.push(0x65);
    v.push(0x73);
    v.push(0x73);
    proof { assert(v@ =~= k_success()); }
    v
}

/// The bytes of `"message_id"`.
pub open spec fn k_message_id() -> Seq<u8> {
    seq![0x6du8, 0x65, 0x73, 0x73, 0x61, 0x67, 0x65, 0x5f, 0x69, 0x64]
}

pub fn k_message_id_v() -> (r: Vec<u8>)
    ensures
        r@ == k_message_id(),
{
    let mut v: Vec<u8> = Vec::new();
    v.push(0x6d);
    v.push(0x65);
    v.push(0x73);
    v.push(0x73);
    v.push(0x61);
    v.push(0x67);
    v.push(0x65);
    v.push(0x5f);
    v.push(0x69);
    v.push(0x64);
    proof { assert(v@ =~= k_message_id()); }
    v
}

/// The bytes of `"timestamp"`.
pub open spec fn k_timestamp() -> Seq<u8> {
    seq![0x74u8, 0x69, 0x6d, 0x65, 0x73, 0x74, 0x61, 0x6d, 0x70]
}

pub fn k_timestamp_v() -> (r: Vec<u8>)
    ensures
        r@ == k_timestamp(),
{
    let mut v: Vec<u8> = Vec::new();
    v.push(0x74);
    v.push(0x69);
    v.push(0x6d);
    v.push(0x65);
    v.push(0x73);
    v.push(0x74);
    v.push(0x61);
    v.push(0x6d);
    v.push(0x70);
    proof { assert(v@ =~= k_timestamp()); }
    v
}

/// The bytes of `"error"`.
pub open spec fn k_error() -> Seq<u8> {
    seq![0x65u8, 0x72, 0x72, 0x6f, 0x72]
}

pub fn k_error_v() -> (r: Vec<u8>)
    ensures
        r@ == k_error(),
{
    let mut v: Vec<u8> = Vec::new();
    v.push(0x65);
    v.push(0x72);
    v.push(0x72);
    v.push(0x6f);
    v.push(0x72);
    proof { assert(v@ =~= k_error()); }
    v
}

/// The bytes of `"jid"`.
pub open spec fn k_jid() -> Seq<u8> {
    seq![0x6au8, 0x69, 0x64]
}

pub fn k_jid_v() -> (r: Vec<u8>)
    ensures
        r@ == k_jid(),
{
    let mut v: Vec<u8> = Vec::new();
    v.push(0x6a);
    v.push(0x69);
    v.push(0x64);
    proof { assert(v@ =~= k_jid()); }
    v
}

/// The bytes of `"url"`.
pub open spec fn k_url() -> Seq<u8> {
    seq![0x75u8, 0x72, 0x6c]
}

pub fn k_url_v() -> (r: Vec<u8>)
    ensures
        r@ == k_url(),
{
    let mut v: Vec<u8> = Vec::new();
    v.push(0x75);
    v.push(0x72);
    v.push(0x6c);
    proof { assert(v@ =~= k_url()); }
    v
}

/// The bytes of `"id"`.
pub open spec fn k_id() -> Seq<u8> {
    seq![0x69u8, 0x64]
}

pub fn k_id_v() -> (r: Vec<u8>)
    ensures
        r@ == k_id(),
{
    let mut v: Vec<u8> = Vec::new();
    v.push(0x69);
    v.push(0x64);
    proof { assert(v@ =~= k_id()); }
    v
}

/// The bytes of `"chat_id"`.
pub open spec fn k_chat_id() -> Seq<u8> {
    seq![0x63u8, 0x68, 0x61, 0x74, 0x5f, 0x69, 0x64]
}

pub fn k_chat_id_v() -> (r: Vec<u8>)
    ensures
        r@ == k_chat_id(),
{
    let mut v: Vec<u8> = Vec::new();
    v.push(0x63);
    v.push(0x68);
    v.push(0x61);
    v.push(0x74);
    v.push(0x5f);
    v.push(0x69);
    v.push(0x64);
    proof { assert(v@ =~= k_chat_id()); }
    v
}

/// The bytes of `"user_id"`.
pub open spec fn k_user_id() -> Seq<u8> {
    seq![0x75u8, 0x73, 0x65, 0x72, 0x5f, 0x69, 0x64]
}

pub fn k_user_id_v() -> (r: Vec<u8>)
    ensures
        r@ == k_user_id(),
{
    let mut v: Vec<u8> = Vec::new();
    v.push(0x75);
    v.push(0x73);
    v.push(0x65);
    v.push(0x72);
    v.push(0x5f);
    v.push(0x69);
    v.push(0x64);
    proof { assert(v@ =~= k_user_id()); }
    v
}

/// The bytes of `"code"`.
pub open spec fn k_code() -> Seq<u8> {
    seq![0x63u8, 0x6f, 0x64, 0x65]
}

pub fn k_code_v() -> (r: Vec<u8>)
    ensures
        r@ == k_code(),
{
    let mut v: Vec<u8> = Vec::new();
    v.push(0x63);
    v.push(0x6f);
    v.push(0x64);
    v.push(0x65);
    proof { assert(v@ =~= k_code()); }
    v
}

/// The bytes of `"message"`.
pub open spec fn k_message() -> Seq<u8> {
    seq![0x6du8, 0x65, 0x73, 0x73, 0x61, 0x67, 0x65]
}

pub fn k_message_v() -> (r: Vec<u8>)
    ensures
        r@ == k_message(),
{
    let mut v: Vec<u8> = Vec::new();
    v.push(0x6d);
    v.push(0x65);
    v.push(0x73);
    v.push(0x73);
    v.push(0x61);
    v.push(0x67);
    v.push(0x65);
    proof { assert(v@ =~= k_message()); }
    v
}

/// The bytes of `"level"`.
pub open spec fn k_level() -> Seq<u8> {
    seq![0x6cu8, 0x65, 0x76, 0x65, 0x6c]
}

pub fn k_level_v() -> (r: Vec<u8>)
    ensures
        r@ == k_level(),
{
    let mut v: Vec<u8> = Vec::new();
    v.push(0x6c);
    v.push(0x65);
    v.push(0x76);
    v.push(0x65);
    v.push(0x6c);
    proof { assert(v@ =~= k_level()); }
    v
}

/// The bytes of `"reason"`.
pub open spec fn k_reason() -> Seq<u8> {
    seq![0x72u8, 0x65, 0x61, 0x73, 0x6f, 0x6e]
}

pub fn k_reason_v() -> (r: Vec<u8>)
    ensures
        r@ == k_reason(),
{
    let mut v: Vec<u8> = Vec::new();
    v.push(0x72);
    v.push(0x65);
    v.push(0x61);
    v.push(0x73);
    v.push(0x6f);
    v.push(0x6e);
    proof { assert(v@ =~= k_reason()); }
    v
}

/// The bytes of `"to"`.
pub open spec fn k_to() -> Seq<u8> {
    seq![0x74u8, 0x6f]
}

pub fn k_to_v() -> (r: Vec<u8>)
    ensures
        r@ == k_to(),
{
    let mut v: Vec<u8> = Vec::new();
    v.push(0x74);
    v.push(0x6f);
    proof { assert(v@ =~= k_to()); }
    v
}

/// The bytes of `"text"`.
pub open spec fn k_text() -> Seq<u8> {
    seq![0x74u8, 0x65, 0x78, 0x74]
}

pub fn k_text_v() -> (r: Vec<u8>)
    ensures
        r@ == k_text(),
{
    let mut v: Vec<u8> = Vec::new();
    v.push(0x74);
    v.push(0x65);
    v.push(0x78);
    v.push(0x74);
    proof { assert(v@ =~= k_text()); }
    v
}

/// The bytes of `"reply_to"`.
pub open spec fn k_reply_to() -> Seq<u8> {
    seq![0x72u8, 0x65, 0x70, 0x6c, 0x79, 0x5f, 0x74, 0x6f]
}

pub fn k_reply_to_v() -> (r: Vec<u8>)
    ensures
        r@ == k_reply_to(),
{
    let mut v: Vec<u8> = Vec::new();
    v.push(0x72);
    v.push(0x65);
    v.push(0x70);
    v.push(0x6c);
    v.push(0x79);
    v.push(0x5f);
    v.push(0x74);
    v.push(0x6f);
    proof { assert(v@ =~= k_reply_to()); }
    v
}

/// The bytes of `"reply_to_sender"`.
pub open spec fn k_reply_to_sender() -> Seq<u8> {
    seq![0x72u8, 0x65, 0x70, 0x6c, 0x79, 0x5f, 0x74, 0x6f, 0x5f, 0x73, 0x65, 0x6e, 0x64, 0x65, 0x72]
}

pub fn k_reply_to_sender_v() -> (r: Vec<u8>)
    ensures
        r@ == k_reply_to_sender(),
{
    let mut v: Vec<u8> = Vec::new();
    v.push(0x72);
    v.push(0x65);
    v.push(0x70);
    v.push(0x6c);
    v.push(0x79);
    v.push(0x5f);
    v.push(0x74);
    v.push(0x6f);
    v.push(0x5f);
    v.push(0x73);
    v.push(0x65);
    v.push(0x6e);
    v.push(0x64);
    v.push(0x65);
    v.push(0x72);
    proof { assert(v@ =~= k_reply_to_sender()); }
    v
}

/// The bytes of `"media_data"`.
pub open spec fn k_media_data() -> Seq<u8> {
    seq![0x6du8, 0x65, 0x64, 0x69, 0x61, 0x5f, 0x64, 0x61, 0x74, 0x61]
}

pub fn k_media_data_v() -> (r: Vec<u8>)
    ensures
        r@ == k_media_data(),
{
    let mut v: Vec<u8> = Vec::new();
    v.push(0x6d);
    v.push(0x65);
    v.push(0x64);
    v.push(0x69);
    v.push(0x61);
    v.push(0x5f);
    v.push(0x64);
    v.push(0x61);
    v.push(0x74);
    v.push(0x61);
    proof { assert(v@ =~= k_media_data()); }
    v
}

/// The bytes of `"mime_type"`.
pub open spec fn k_mime_type() -> Seq<u8> {
    seq![0x6du8, 0x69, 0x6d, 0x65, 0x5f, 0x74, 0x79, 0x70, 0x65]
}

pub fn k_mime_type_v() -> (r: Vec<u8>)
    ensures
        r@ == k_mime_type(),
{
    let mut v: Vec<u8> = Vec::new();
    v.push(0x6d);
    v.push(0x69);
    v.push(0x6d);
    v.push(0x65);
    v.push(0x5f);
    v.push(0x74);
    v.push(0x79);
    v.push(0x70);
    v.push(0x65);
    proof { assert(v@ =~= k_mime_type()); }
    v
}

/// The bytes of `"caption"`.
pub open spec fn k_caption() -> Seq<u8> {
    seq![0x63u8, 0x61, 0x70, 0x74, 0x69, 0x6f, 0x6e]
}

pub fn k_caption_v() -> (r: Vec<u8>)
    ensures
        r@ == k_caption(),
{
    let mut v: Vec<u8> = Vec::new();
    v.push(0x63);
    v.push(0x61);
    v.push(0x70);
    v.push(0x74);
    v.push(0x69);
    v.push(0x6f);
    v.push(0x6e);
    proof { assert(v@ =~= k_caption()); }
    v
}

/// The bytes of `"sender_jid"`.
pub open spec fn k_sender_jid() -> Seq<u8> {
    seq![0x73u8, 0x65, 0x6e, 0x64, 0x65, 0x72, 0x5f, 0x6a, 0x69, 0x64]
}

pub fn k_sender_jid_v() -> (r: Vec<u8>)
    ensures
        r@ == k_sender_jid(),
{
    let mut v: Vec<u8> = Vec::new();
    v.push(0x73);
    v.push(0x65);
    v.push(0x6e);
    v.push(0x64);
    v.push(0x65);
    v.push(0x72);
    v.push(0x5f);
    v.push(0x6a);
    v.push(0x69);
    v.push(0x64);
    proof { assert(v@ =~= k_sender_jid()); }
    v
}

/// The bytes of `"emoji"`.
pub open spec fn k_emoji() -> Seq<u8> {
    seq![0x65u8, 0x6d, 0x6f, 0x6a, 0x69]
}

pub fn k_emoji_v() -> (r: Vec<u8>)
    ensures
        r@ == k_emoji(),
{
    let mut v: Vec<u8> = Vec::new();
    v.push(0x65);
    v.push(0x6d);
    v.push(0x6f);
    v.push(0x6a);
    v.push(0x69);
    proof { assert(v@ =~= k_emoji()); }
    v
}

/// The bytes of `"qr"`.
pub open spec fn t_qr() -> Seq<u8> {
    seq![0x71u8, 0x72]
}

pub fn t_qr_v() -> (r: Vec<u8>)
    ensures
        r@ == t_qr(),
{
    let mut v: Vec<u8> = Vec::new();
    v.push(0x71);
    v.push(0x72);
    proof { assert(v@ =~= t_qr()); }
    v
}

/// The bytes of `"connected"`.
pub open spec fn t_connected() -> Seq<u8> {
    seq![0x63u8, 0x6f, 0x6e, 0x6e, 0x65, 0x63, 0x74, 0x65, 0x64]
}

pub fn t_connected_v() -> (r: Vec<u8>)
    ensures
        r@ == t_connected(),
{
    let mut v: Vec<u8> = Vec::new();
    v.push(0x63);
    v.push(0x6f);
    v.push(0x6e);
    v.push(0x6e);
    v.push(0x65);
    v.push(0x63);
    v.push(0x74);
    v.push(0x65);
    v.push(0x64);
    proof { assert(v@ =~= t_connected()); }
    v
}

/// The bytes of `"connection_state"`.
pub open spec fn t_connection_state() -> Seq<u8> {
    seq![0x63u8, 0x6f, 0x6e, 0x6e, 0x65, 0x63, 0x74, 0x69, 0x6f, 0x6e, 0x5f, 0x73, 0x74, 0x61, 0x74, 0x65]
}

pub fn t_connection_state_v() -> (r: Vec<u8>)
    ensures
        r@ == t_connection_state(),
{
    let mut v: Vec<u8> = Vec::new();
    v.push(0x63);
    v.push(0x6f);
    v.push(0x6e);
    v.push(0x6e);
    v.push(0x65);
    v.push(0x63);
    v.push(0x74);
    v.push(0x69);
    v.push(0x6f);
    v.push(0x6e);
    v.push(0x5f);
    v.push(0x73);
    v.push(0x74);
    v.push(0x61);
    v.push(0x74);
    v.push(0x65);
    proof { assert(v@ =~= t_connection_state()); }
    v
}

/// The bytes of `"message"`.
pub open spec fn t_message() -> Seq<u8> {
    seq![0x6du8, 0x65, 0x73, 0x73, 0x61, 0x67, 0x65]
}

pub fn t_message_v() -> (r: Vec<u8>)
    ensures
        r@ == t_message(),
{
    let mut v: Vec<u8> = Vec::new();
    v.push(0x6d);
    v.push(0x65);
    v.push(0x73);
    v.push(0x73);
    v.push(0x61);
    v.push(0x67);
    v.push(0x65);
    proof { assert(v@ =~= t_message()); }
    v
}

/// The bytes of `"send_result"`.
pub open spec fn t_send_result() -> Seq<u8> {
    seq![0x73u8, 0x65, 0x6e, 0x64, 0x5f, 0x72, 0x65, 0x73, 0x75, 0x6c, 0x74]
}

pub fn t_send_result_v() -> (r: Vec<u8>)
    ensures
        r@ == t_send_result(),
{
    let mut v: Vec<u8> = Vec::new();
    v.push(0x73);
    v.push(0x65);
    v.push(0x6e);
    v.push(0x64);
    v.push(0x5f);
    v.push(0x72);
    v.push(0x65);
    v.push(0x73);
    v.push(0x75);
    v.push(0x6c);
    v.push(0x74);
    proof { assert(v@ =~= t_send_result()); }
    v
}

/// The bytes of `"profile_picture"`.
pub open spec fn t_profile_picture() -> Seq<u8> {
    seq![0x70u8, 0x72, 0x6f, 0x66, 0x69, 0x6c, 0x65, 0x5f, 0x70, 0x69, 0x63, 0x74, 0x75, 0x72, 0x65]
}

pub fn t_profile_picture_v() -> (r: Vec<u8>)
    ensures
        r@ == t_profile_picture(),
{
    let mut v: Vec<u8> = Vec::new();
    v.push(0x70);
    v.push(0x72);
    v.push(0x6f);
    v.push(0x66);
    v.push(0x69);
    v.push(0x6c);
    v.push(0x65);
    v.push(0x5f);
    v.push(0x70);
    v.push(0x69);
    v.push(0x63);
    v.push(0x74);
    v.push(0x75);
    v.push(0x72);
    v.push(0x65);
    proof { assert(v@ =~= t_profile_picture()); }
    v
}

/// The bytes of `"chat_presence"`.
pub open spec fn t_chat_presence() -> Seq<u8> {
    seq![0x63u8, 0x68, 0x61, 0x74, 0x5f, 0x70, 0x72, 0x65, 0x73, 0x65, 0x6e, 0x63, 0x65]
}

pub fn t_chat_presence_v() -> (r: Vec<u8>)
    ensures
        r@ == t_chat_presence(),
{
    let mut v: Vec<u8> = Vec::new();
    v.push(0x63);
    v.push(0x68);
    v.push(0x61);
    v.push(0x74);
    v.push(0x5f);
    v.push(0x70);
    v.push(0x72);
    v.push(0x65);
    v.push(0x73);
    v.push(0x65);
    v.push(0x6e);
    v.push(0x63);
    v.push(0x65);
    proof { assert(v@ =~= t_chat_presence()); }
    v
}

/// The bytes of `"error"`.
pub open spec fn t_error() -> Seq<u8> {
    seq![0x65u8, 0x72, 0x72, 0x6f, 0x72]
}

pub fn t_error_v() -> (r: Vec<u8>)
    ensures
        r@ == t_error(),
{
    let mut v: Vec<u8> = Vec::new();
    v.push(0x65);
    v.push(0x72);
    v.push(0x72);
    v.push(0x6f);
    v.push(0x72);
    proof { assert(v@ =~= t_error()); }
    v
}

/// The bytes of `"log"`.
pub open spec fn t_log() -> Seq<u8> {
    seq![0x6cu8, 0x6f, 0x67]
}

pub fn t_log_v() -> (r: Vec<u8>)
    ensures
        r@ == t_log(),
{
    let mut v: Vec<u8> = Vec::new();
    v.push(0x6c);
    v.push(0x6f);
    v.push(0x67);
    proof { assert(v@ =~= t_log()); }
    v
}

/// The bytes of `"logged_out"`.
pub open spec fn t_logged_out() -> Seq<u8> {
    seq![0x6cu8, 0x6f, 0x67, 0x67, 0x65, 0x64, 0x5f, 0x6f, 0x75, 0x74]
}

pub fn t_logged_out_v() -> (r: Vec<u8>)
    ensures
        r@ == t_logged_out(),
{
    let mut v: Vec<u8> = Vec::new();
    v.push(0x6c);
    v.push(0x6f);
    v.push(0x67);
    v.push(0x67);
    v.push(0x65);
    v.push(0x64);
    v.push(0x5f);
    v.push(0x6f);
    v.push(0x75);
    v.push(0x74);
    proof { assert(v@ =~= t_logged_out()); }
    v
}

/// The bytes of `"mark_as_read"`.
pub open spec fn t_mark_as_read() -> Seq<u8> {
    seq![0x6du8, 0x61, 0x72, 0x6b, 0x5f, 0x61, 0x73, 0x5f, 0x72, 0x65, 0x61, 0x64]
}

pub fn t_mark_as_read_v() -> (r: Vec<u8>)
    ensures
        r@ == t_mark_as_read(),
{
    let mut v: Vec<u8> = Vec::new();
    v.push(0x6d);
    v.push(0x61);
    v.push(0x72);
    v.push(0x6b);
    v.push(0x5f);
    v.push(0x61);
    v.push(0x73);
    v.push(0x5f);
    v.push(0x72);
    v.push(0x65);
    v.push(0x61);
    v.push(0x64);
    proof { assert(v@ =~= t_mark_as_read()); }
    v
}

/// The bytes of `"send"`.
pub open spec fn t_send() -> Seq<u8> {
    seq![0x73u8, 0x65, 0x6e, 0x64]
}

pub fn t_send_v() -> (r: Vec<u8>)
    ensures
        r@ == t_send(),
{
    let mut v: Vec<u8> = Vec::new();
    v.push(0x73);
    v.push(0x65);
    v.push(0x6e);
    v.push(0x64);
    proof { assert(v@ =~= t_send()); }
    v
}

/// The bytes of `"send_image"`.
pub open spec fn t_send_image() -> Seq<u8> {
    seq![0x73u8, 0x65, 0x6e, 0x64, 0x5f, 0x69, 0x6d, 0x61, 0x67, 0x65]
}

pub fn t_send_image_v() -> (r: Vec<u8>)
    ensures
        r@ == t_send_image(),
{
    let mut v: Vec<u8> = Vec::new();
    v.push(0x73);
    v.push(0x65);
    v.push(0x6e);
    v.push(0x64);
    v.push(0x5f);
    v.push(0x69);
    v.push(0x6d);
    v.push(0x61);
    v.push(0x67);
    v.push(0x65);
    proof { assert(v@ =~= t_send_image()); }
    v
}

/// The bytes of `"send_reaction"`.
pub open spec fn t_send_reaction() -> Seq<u8> {
    seq![0x73u8, 0x65, 0x6e, 0x64, 0x5f, 0x72, 0x65, 0x61, 0x63, 0x74, 0x69, 0x6f, 0x6e]
}

pub fn t_send_reaction_v() -> (r: Vec<u8>)
    ensures
        r@ == t_send_reaction(),
{
    let mut v: Vec<u8> = Vec::new();
    v.push(0x73);
    v.push(0x65);
    v.push(0x6e);
    v.push(0x64);
    v.push(0x5f);
    v.push(0x72);
    v.push(0x65);
    v.push(0x61);
    v.push(0x63);
    v.push(0x74);
    v.push(0x69);
    v.push(0x6f);
    v.push(0x6e);
    proof { assert(v@ =~= t_send_reaction()); }
    v
}

/// The bytes of `"get_profile_picture"`.
pub open spec fn t_get_profile_picture() -> Seq<u8> {
    seq![0x67u8, 0x65, 0x74, 0x5f, 0x70, 0x72, 0x6f, 0x66, 0x69, 0x6c, 0x65, 0x5f, 0x70, 0x69, 0x63, 0x74, 0x75, 0x72, 0x65]
}

pub fn t_get_profile_picture_v() -> (r: Vec<u8>)
    ensures
        r@ == t_get_profile_picture(),
{
    let mut v: Vec<u8> = Vec::new();
    v.push(0x67);
    v.push(0x65);
    v.push(0x74);
    v.push(0x5f);
    v.push(0x70);
    v.push(0x72);
    v.push(0x6f);
    v.push(0x66);
    v.push(0x69);
    v.push(0x6c);
    v.push(0x65);
    v.push(0x5f);
    v.push(0x70);
    v.push(0x69);
    v.push(0x63);
    v.push(0x74);
    v.push(0x75);
    v.push(0x72);
    v.push(0x65);
    proof { assert(v@ =~= t_get_profile_picture()); }
    v
}

/// The bytes of `"disconnect"`.
pub open spec fn t_disconnect() -> Seq<u8> {
    seq![0x64u8, 0x69, 0x73, 0x63, 0x6f, 0x6e, 0x6e, 0x65, 0x63, 0x74]
}

pub fn t_disconnect_v() -> (r: Vec<u8>)
    ensures
        r@ == t_disconnect(),
{
    let mut v: Vec<u8> = Vec::new();
    v.push(0x64);
    v.push(0x69);
    v.push(0x73);
    v.push(0x63);
    v.push(0x6f);
    v.push(0x6e);
    v.push(0x6e);
    v.push(0x65);
    v.push(0x63);
    v.push(0x74);
    proof { assert(v@ =~= t_disconnect()); }
    v
}

/// The bytes of `"logout"`.
pub open spec fn t_logout() -> Seq<u8> {
    seq![0x6cu8, 0x6f, 0x67, 0x6f, 0x75, 0x74]
}

pub fn t_logout_v() -> (r: Vec<u8>)
    ensures
        r@ == t_logout(),
{
    let mut v: Vec<u8> = Vec::new();
    v.push(0x6c);
    v.push(0x6f);
    v.push(0x67);
    v.push(0x6f);
    v.push(0x75);
    v.push(0x74);
    proof { assert(v@ =~= t_logout()); }
    v
}

/// The bytes of `"connecting"`.
pub open spec fn t_connecting() -> Seq<u8> {
    seq![0x63u8, 0x6f, 0x6e, 0x6e, 0x65, 0x63, 0x74, 0x69, 0x6e, 0x67]
}

pub fn t_connecting_v() -> (r: Vec<u8>)
    ensures
        r@ == t_connecting(),
{
    let mut v: Vec<u8> = Vec::new();
    v.push(0x63);
    v.push(0x6f);
    v.push(0x6e);
    v.push(0x6e);
    v.push(0x65);
    v.push(0x63);
    v.push(0x74);
    v.push(0x69);
    v.push(0x6e);
    v.push(0x67);
    proof { assert(v@ =~= t_connecting()); }
    v
}

/// The bytes of `"disconnected"`.
pub open spec fn t_disconnected() -> Seq<u8> {
    seq![0x64u8, 0x69, 0x73, 0x63, 0x6f, 0x6e, 0x6e, 0x65, 0x63, 0x74, 0x65, 0x64]
}

pub fn t_disconnected_v() -> (r: Vec<u8>)
    ensures
        r@ == t_disconnected(),
{
    let mut v: Vec<u8> = Vec::new();
    v.push(0x64);
    v.push(0x69);
    v.push(0x73);
    v.push(0x63);
    v.push(0x6f);
    v.push(0x6e);
    v.push(0x6e);
    v.push(0x65);
    v.push(0x63);
    v.push(0x74);
    v.push(0x65);
    v.push(0x64);
    proof { assert(v@ =~= t_disconnected()); }
    v
}

/// The bytes of `"reconnecting"`.
pub open spec fn t_reconnecting() -> Seq<u8> {
    seq![0x72u8, 0x65, 0x63, 0x6f, 0x6e, 0x6e, 0x65, 0x63, 0x74, 0x69, 0x6e, 0x67]
}

pub fn t_reconnecting_v() -> (r: Vec<u8>)
    ensures
        r@ == t_reconnecting(),
{
    let mut v: Vec<u8> = Vec::new();
    v.push(0x72);
    v.push(0x65);
    v.push(0x63);
    v.push(0x6f);
    v.push(0x6e);
    v.push(0x6e);
    v.push(0x65);
    v.push(0x63);
    v.push(0x74);
    v.push(0x69);
    v.push(0x6e);
    v.push(0x67);
    proof { assert(v@ =~= t_reconnecting()); }
    v
}

/// The bytes of `"typing"`.
pub open spec fn t_typing() -> Seq<u8> {
    seq![0x74u8, 0x79, 0x70, 0x69, 0x6e, 0x67]
}

pub fn t_typing_v() -> (r: Vec<u8>)
    ensures
        r@ == t_typing(),
{
    let mut v: Vec<u8> = Vec::new();
    v.push(0x74);
    v.push(0x79);
    v.push(0x70);
    v.push(0x69);
    v.push(0x6e);
    v.push(0x67);
    proof { assert(v@ =~= t_typing()); }
    v
}

/// The bytes of `"paused"`.
pub open spec fn t_paused() -> Seq<u8> {
    seq![0x70u8, 0x61, 0x75, 0x73, 0x65, 0x64]
}

pub fn t_paused_v() -> (r: Vec<u8>)
    ensures
        r@ == t_paused(),
{
    let mut v: Vec<u8> = Vec::new();
    v.push(0x70);
    v.push(0x61);
    v.push(0x75);
    v.push(0x73);
    v.push(0x65);
    v.push(0x64);
    proof { assert(v@ =~= t_paused()); }
    v
}

/// The bytes of `"recording"`.
pub open spec fn t_recording() -> Seq<u8> {
    seq![0x72u8, 0x65, 0x63, 0x6f, 0x72, 0x64, 0x69, 0x6e, 0x67]
}

pub fn t_recording_v() -> (r: Vec<u8>)
    ensures
        r@ == t_recording(),
{
    let mut v: Vec<u8> = Vec::new();
    v.push(0x72);
    v.push(0x65);
    v.push(0x63);
    v.push(0x6f);
    v.push(0x72);
    v.push(0x64);
    v.push(0x69);
    v.push(0x6e);
    v.push(0x67);
    proof { assert(v@ =~= t_recording()); }
    v
}

/// The bytes of `"warn"`.
pub open spec fn t_warn() -> Seq<u8> {
    seq![0x77u8, 0x61, 0x72, 0x6e]
}

pub fn t_warn_v() -> (r: Vec<u8>)
    ensures
        r@ == t_warn(),
{
    let mut v: Vec<u8> = Vec::new();
    v.push(0x77);
    v.push(0x61);
    v.push(0x72);
    v.push(0x6e);
    proof { assert(v@ =~= t_warn()); }
    v
}

/// The bytes of `"debug"`.
pub open spec fn t_debug() -> Seq<u8> {
    seq![0x64u8, 0x65, 0x62, 0x75, 0x67]
}

pub fn t_debug_v() -> (r: Vec<u8>)
    ensures
        r@ == t_debug(),
{
    let mut v: Vec<u8> = Vec::new();
    v.push(0x64);
    v.push(0x65);
    v.push(0x62);
    v.push(0x75);
    v.push(0x67);
    proof { assert(v@ =~= t_debug()); }
    v
}

/// The bytes of `"[bridge] "`.
pub open spec fn m_bridge_prefix() -> Seq<u8> {
    seq![0x5bu8, 0x62, 0x72, 0x69, 0x64, 0x67, 0x65, 0x5d, 0x20]
}

pub fn m_bridge_prefix_v() -> (r: Vec<u8>)
    ensures
        r@ == m_bridge_prefix(),
{
    let mut v: Vec<u8> = Vec::new();
    v.push(0x5b);
    v.push(0x62);
    v.push(0x72);
    v.push(0x69);
    v.push(0x64);
    v.push(0x67);
    v.push(0x65);
    v.push(0x5d);
    v.push(0x20);
    proof { assert(v@ =~= m_bridge_prefix()); }
    v
}

/// The bytes of the log prefix put before an undecodable line.
pub open spec fn m_parse_failed() -> Seq<u8> {
    seq![0x66u8, 0x61, 0x69, 0x6c, 0x65, 0x64, 0x20, 0x74, 0x6f, 0x20, 0x70, 0x61, 0x72, 0x73, 0x65, 0x20, 0x62, 0x72, 0x69, 0x64, 0x67, 0x65, 0x20, 0x65, 0x76, 0x65, 0x6e, 0x74, 0x3a, 0x20]
}

pub fn m_parse_failed_v() -> (r: Vec<u8>)
    ensures
        r@ == m_parse_failed(),
{
    let mut v: Vec<u8> = Vec::new();
    v.push(0x66);
    v.push(0x61);
    v.push(0x69);
    v.push(0x6c);
    v.push(0x65);
    v.push(0x64);
    v.push(0x20);
    v.push(0x74);
    v.push(0x6f);
    v.push(0x20);
    v.push(0x70);
    v.push(0x61);
    v.push(0x72);
    v.push(0x73);
    v.push(0x65);
    v.push(0x20);
    v.push(0x62);
    v.push(0x72);
    v.push(0x69);
    v.push(0x64);
    v.push(0x67);
    v.push(0x65);
    v.push(0x20);
    v.push(0x65);
    v.push(0x76);
    v.push(0x65);
    v.push(0x6e);
    v.push(0x74);
    v.push(0x3a);
    v.push(0x20);
    proof { assert(v@ =~= m_parse_failed()); }
    v
}
} // verus!

//! The pure helpers: URL extraction, entity coding, formatting,
//! display names, and the OAuth pieces.

use base64::Engine;
use sha2::Digest;
use wa_bridge::api::{ContactInfo, StoredContact, StyleProfile};
use wa_bridge::chat::{extract_phone, Chat, Contact};
use wa_bridge::cli::Args;
use wa_bridge::oauth::{generate_token, AuthorizationCode, OAuthMetadata};
use wa_bridge::preview::{extract_urls, LinkPreview};
use wa_bridge::text::{format_duration, format_file_size, get_base_url, html_decode, html_escape};

fn b(s: &str) -> Vec<u8> {
    s.as_bytes().to_vec()
}

#[test]
fn test_extract_urls() {
    let urls = extract_urls("Check out https://example.com and http://test.org/path?query=1");
    assert_eq!(urls.len(), 2);
    assert_eq!(urls[0], "https://example.com");
    assert_eq!(urls[1], "http://test.org/path?query=1");
}

#[test]
fn test_extract_urls_with_punctuation() {
    let urls = extract_urls("Visit https://example.com. Also see https://test.org!");
    assert_eq!(urls.len(), 2);
    assert_eq!(urls[0], "https://example.com");
    assert_eq!(urls[1], "https://test.org");
}

#[test]
fn test_pkce_verification() {
    // Test vector from RFC 7636.
    let code_verifier = "dBjftJeZ4CVP-mB92K27uhbUJU1p1r_wW1gFWFOEjXk";

    let mut hasher = sha2::Sha256::new();
    hasher.update(code_verifier.as_bytes());
    let hash = hasher.finalize();
    let code_challenge = base64::engine::general_purpose::URL_SAFE_NO_PAD.encode(hash);

    let now = 1700000000i64;
    let auth_code = AuthorizationCode {
        code: "test".to_string(),
        client_id: "test".to_string(),
        redirect_uri: "http://localhost".to_string(),
        code_challenge: code_challenge.clone(),
        code_challenge_method: "S256".to_string(),
        scope: "mcp".to_string(),
        created_at: now,
        expires_at: now + 300,
        used: false,
    };

    assert!(auth_code.verify_pkce(code_verifier));
    assert!(!auth_code.verify_pkce("wrong_verifier"));
}

#[test]
fn test_expiry_is_a_strict_boundary() {
    let now = 1700000000i64;
    let code = AuthorizationCode {
        code: "c".to_string(),
        client_id: "i".to_string(),
        redirect_uri: "u".to_string(),
        code_challenge: "x".to_string(),
        code_challenge_method: "S256".to_string(),
        scope: "mcp".to_string(),
        created_at: now,
        expires_at: now + 300,
        used: false,
    };
    assert!(!code.is_expired_at(now + 300));
    assert!(code.is_expired_at(now + 301));
}

#[test]
fn test_generate_token_shape() {
    let t1 = generate_token();
    let t2 = generate_token();
    assert_eq!(t1.len(), 43);
    assert_eq!(t2.len(), 43);
    assert_ne!(t1, t2);
}

#[test]
fn test_oauth_metadata_endpoints() {
    let m = OAuthMetadata::new("https://example.net");
    assert_eq!(m.issuer, "https://example.net");
    assert_eq!(m.authorization_endpoint, "https://example.net/oauth/authorize");
    assert_eq!(m.token_endpoint, "https://example.net/oauth/token");
    assert_eq!(m.revocation_endpoint.unwrap(), "https://example.net/oauth/revoke");
    assert_eq!(m.response_types_supported, vec!["code".to_string()]);
    assert_eq!(m.code_challenge_methods_supported, vec!["S256".to_string()]);
    assert_eq!(m.scopes_supported, vec!["mcp".to_string()]);
}

#[test]
fn test_html_decode() {
    assert_eq!(
        html_decode(&b("a &amp; b &lt;c&gt; &quot;d&quot; &#39;e&apos; &#x27;f &nbsp;")),
        b("a & b <c> \"d\" 'e' 'f  ")
    );
}

#[test]
fn test_html_escape() {
    assert_eq!(
        html_escape(&b("<a href=\"x\">&'</a>")),
        b("&lt;a href=&quot;x&quot;&gt;&amp;&#x27;&lt;/a&gt;")
    );
}

#[test]
fn test_format_file_size() {
    assert_eq!(format_file_size(0), "0 B");
    assert_eq!(format_file_size(512), "512 B");
    assert_eq!(format_file_size(1024), "1.00 KB");
    assert_eq!(format_file_size(1536), "1.50 KB");
    assert_eq!(format_file_size(1024 * 1024), "1.00 MB");
    assert_eq!(format_file_size(5 * 1024 * 1024 * 1024), "5.00 GB");
}

#[test]
fn test_format_duration() {
    assert_eq!(format_duration(5), "00:05");
    assert_eq!(format_duration(65), "01:05");
    assert_eq!(format_duration(3723), "01:02:03");
    assert_eq!(format_duration(36_000), "10:00:00");
}

#[test]
fn test_get_base_url() {
    assert_eq!(get_base_url("example.com", true), "https://example.com");
    assert_eq!(get_base_url("localhost:3000", false), "http://localhost:3000");
}

#[test]
fn test_extract_phone() {
    assert_eq!(extract_phone("1234567890@s.whatsapp.net"), "1234567890");
    assert_eq!(extract_phone("no-at-sign"), "no-at-sign");
}

#[test]
fn test_chat_accessors() {
    let chat = Chat::Private { jid: "42@s".to_string(), name: None };
    assert_eq!(chat.jid(), "42@s");
    assert!(!chat.is_group());
    assert_eq!(chat.display_name(), "42");
    let group = Chat::Group {
        jid: "g@g.us".to_string(),
        name: Some("Friends".to_string()),
        participant_count: Some(3),
    };
    assert!(group.is_group());
    assert_eq!(group.display_name(), "Friends");
    let bc = Chat::Broadcast { jid: "77@b".to_string() };
    assert_eq!(bc.display_name(), "Broadcast: 77");
    let st = Chat::Status { jid: "s@s".to_string() };
    assert_eq!(st.display_name(), "Status");
}

#[test]
fn test_contact_display_name() {
    let c = Contact { jid: "42@s".to_string(), phone: "42".to_string(), name: None };
    assert_eq!(c.display_name(), "42");
    let c = Contact { name: Some("Ada".to_string()), ..c };
    assert_eq!(c.display_name(), "Ada");
}

#[test]
fn test_link_preview_error() {
    let p = LinkPreview::error("https://x".to_string(), "HTTP 404".to_string());
    assert_eq!(p.url, "https://x");
    assert_eq!(p.error.unwrap(), "HTTP 404");
    assert!(p.title.is_none());
    assert!(p.image_url.is_none());
}

#[test]
fn test_style_profile_is_global() {
    let p = StyleProfile {
        contact_id: "__global__".to_string(),
        profile_text: "t".to_string(),
        sample_messages: vec![],
        message_count: 0,
        updated_at: 0,
    };
    assert!(p.is_global());
    let p = StyleProfile { contact_id: "someone@s".to_string(), ..p };
    assert!(!p.is_global());
}

#[test]
fn test_contact_info_from_stored() {
    let sc = StoredContact {
        id: "42@s".to_string(),
        name: Some("Ada".to_string()),
        phone: Some("42".to_string()),
        contact_type: Some("private".to_string()),
        last_message_time: 5,
        unread_count: 2,
        pinned_at: Some(9),
        last_message_preview: None,
    };
    let ci = ContactInfo::from_stored(sc);
    assert_eq!(ci.id, "42@s");
    assert!(ci.is_pinned);
    assert_eq!(ci.unread_count, 2);
}

#[test]
fn test_translation_enabled() {
    let args = Args {
        verbose: false,
        json: false,
        logout: false,
        data_dir: None,
        bridge_path: None,
        web: false,
        port: 3000,
        host: "0.0.0.0".to_string(),
        claude_api_key: None,
        default_language: "English".to_string(),
        password: None,
    };
    assert!(!args.translation_enabled());
    let args = Args { claude_api_key: Some("SECRET-REDACTED".to_string()), ..args };
    assert!(args.translation_enabled());
}

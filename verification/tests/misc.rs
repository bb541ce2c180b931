use weibo_pc::bubble::{
    contact_initial, image_caption, image_text_shown, initial, quote_parts, role_badge, sender_label,
};
use weibo_pc::ca::{ca_profile, domain_profile, CaError, CaManager, KeyUsage, NameKind};
use weibo_pc::domain::{AppError, ChatMessage, LoginPhase, MediaType, MsgType};
use weibo_pc::json::{get_either, get_path, take_member, text_or, Json, JsonNumber};
use weibo_pc::text::{
    chars_of, find_in, first_chars, i64_to_decimal, line_ranges, parse_u16_in, same_str, starts_with,
    str_contains, trimmed, u64_to_decimal, word_ranges,
};
use weibo_pc::ws::{frame_items, frame_text, BayeuxSession, WsError};

fn num(v: i64) -> Json {
    Json::Number(JsonNumber { int: Some(v), uint: if v >= 0 { Some(v as u64) } else { None } })
}

fn obj(members: Vec<(&str, Json)>) -> Json {
    Json::Object(members.into_iter().map(|(k, v)| (k.to_string(), v)).collect())
}

fn s(t: &str) -> Json {
    Json::Str(t.to_string())
}

fn member<'a>(j: &'a Json, k: &str) -> &'a str {
    match j {
        Json::Array(a) => match &a[0] {
            Json::Object(m) => match m.iter().find(|(n, _)| n == k).map(|(_, v)| v) {
                Some(Json::Str(t)) => t.as_str(),
                _ => panic!("missing member"),
            },
            _ => panic!("not an object"),
        },
        _ => panic!("not an array"),
    }
}

fn message(text: &str, is_self: bool) -> ChatMessage {
    ChatMessage {
        id: String::new(),
        sender_id: String::new(),
        sender_name: "小明".to_string(),
        sender_avatar: String::new(),
        text: text.to_string(),
        created_at: String::new(),
        timestamp: 0,
        is_self,
        msg_type: MsgType::Normal,
        media_type: MediaType::Text,
        fids: Vec::new(),
        role: 0,
    }
}

#[test]
fn api_codes() {
    assert_eq!(MsgType::from_api(321), MsgType::Normal);
    assert_eq!(MsgType::from_api(322), MsgType::System);
    assert_eq!(MsgType::from_api(344), MsgType::Recall);
    assert_eq!(MsgType::from_api(7), MsgType::Other(7));
    assert_eq!(MediaType::from_api(0), MediaType::Text);
    assert_eq!(MediaType::from_api(1), MediaType::Image);
    assert_eq!(MediaType::from_api(14), MediaType::Quote);
    assert_eq!(MediaType::from_api(2), MediaType::Other(2));
}

#[test]
fn phase_names_and_errors() {
    assert_eq!(LoginPhase::CheckingCookie.name(), "CheckingCookie");
    assert_eq!(LoginPhase::Loading(String::new()).name(), "Loading");
    assert_eq!(LoginPhase::WaitingScan { status: String::new(), qr_png_bytes: None }.name(), "WaitingScan");
    assert_eq!(LoginPhase::Exchanging(String::new()).name(), "Exchanging");
    assert_eq!(LoginPhase::FetchingHome.name(), "FetchingHome");
    assert_eq!(LoginPhase::HomeLoaded { items: Vec::new(), title: String::new() }.name(), "HomeLoaded");
    assert_eq!(LoginPhase::Error(String::new()).name(), "Error");
    assert_eq!(AppError::Network("x".to_string()).message(), "网络错误: x");
    assert_eq!(AppError::Auth("x".to_string()).message(), "认证错误: x");
    assert_eq!(AppError::Parse("x".to_string()).message(), "解析错误: x");
    assert_eq!(AppError::Io("x".to_string()).message(), "IO错误: x");
}

#[test]
fn text_helpers() {
    assert_eq!(u64_to_decimal(0), "0");
    assert_eq!(u64_to_decimal(18446744073709551615), "18446744073709551615");
    assert_eq!(i64_to_decimal(-9223372036854775808), "-9223372036854775808");
    assert_eq!(i64_to_decimal(42), "42");
    assert!(starts_with("10001abc", "10001"));
    assert!(!starts_with("1000", "10001"));
    assert!(same_str("a", "a"));
    assert!(str_contains("张三丰", "三"));
    assert!(!str_contains("abc", "d"));
    assert_eq!(first_chars("你好世界", 2), "你好");
    assert_eq!(first_chars("ab", 5), "ab");
    let cs = chars_of(" \t x y \u{3000}");
    assert_eq!(trimmed(&cs, 0, cs.len()), "x y");
    let cs = chars_of("a\r\nb\nc");
    assert_eq!(line_ranges(&cs).len(), 3);
    let cs = chars_of("  GET   /x  HTTP/1.1 ");
    assert_eq!(word_ranges(&cs, 0, cs.len()).len(), 3);
    let cs = chars_of("8443");
    assert_eq!(parse_u16_in(&cs, 0, cs.len()), Some(8443));
    let cs = chars_of("70000");
    assert_eq!(parse_u16_in(&cs, 0, cs.len()), None);
    let hay = chars_of("abcabc");
    let needle = chars_of("ca");
    assert_eq!(find_in(&hay, &needle), Some(2));
}

#[test]
fn json_access() {
    let j = obj(vec![("a", obj(vec![("b", s("x"))])), ("c", num(3))]);
    assert!(matches!(get_path(&j, "a", "b"), Some(Json::Str(t)) if t == "x"));
    assert!(get_path(&j, "a", "z").is_none());
    assert!(matches!(get_either(&j, "z", "c"), Some(Json::Number(_))));
    assert_eq!(j.get("c").unwrap().as_i64(), Some(3));
    assert_eq!(j.get("c").unwrap().as_u64(), Some(3));
    assert!(j.get("c").unwrap().as_str().is_none());
    assert_eq!(text_or(None, "d"), "d");
    assert!(matches!(take_member(j, "c"), Some(Json::Number(_))));
}

#[test]
fn bubble_texts() {
    assert_eq!(role_badge(4), Some("群主"));
    assert_eq!(role_badge(1), Some("管理员"));
    assert_eq!(role_badge(0), None);
    assert_eq!(initial("微博"), "微");
    assert_eq!(initial(""), "");
    assert_eq!(contact_initial("微博", true), "群");
    assert_eq!(contact_initial("Bob", false), "B");
    assert_eq!(sender_label(&message("x", true)), "我");
    assert_eq!(sender_label(&message("x", false)), "小明");
    assert!(image_text_shown("看"));
    assert!(!image_text_shown("分享图片"));
    assert!(!image_text_shown(""));
}

#[test]
fn quoted_replies() {
    let (q, r) = quote_parts("「原文」\n- - - - - - - - - - - - - - -\n回复");
    assert_eq!(q, "原文");
    assert_eq!(r, "回复");
    let (q, r) = quote_parts("「「a」」\n- - - - - - - - - - - - - - -\nb\n- - - - - - - - - - - - - - -\nc");
    assert_eq!(q, "a");
    assert_eq!(r, "b\n- - - - - - - - - - - - - - -\nc");
    let (q, r) = quote_parts("plain");
    assert_eq!(q, "");
    assert_eq!(r, "plain");
}

#[test]
fn image_captions() {
    assert_eq!(image_caption(&Vec::new()), "图片");
    let fids = vec!["4567890123456789".to_string(), "1".to_string()];
    assert_eq!(image_caption(&fids), "2 张图片\nfid: 456789012345...");
    assert_eq!(image_caption(&vec!["12".to_string()]), "1 张图片\nfid: 12...");
}

#[test]
fn bayeux_session_messages() {
    let mut b = BayeuxSession::new("42".to_string());
    let h = b.handshake();
    assert_eq!(member(&h, "id"), "1");
    assert_eq!(member(&h, "channel"), "/meta/handshake");
    assert_eq!(b.msg_id, 2);
    assert!(matches!(b.on_handshake_reply(Some(vec![obj(vec![])])), Err(WsError::HandshakeFailed)));
    assert!(b.on_handshake_reply(Some(vec![obj(vec![("clientId", s("cid"))])])).is_ok());
    assert_eq!(b.client_id, "cid");
    let sub = b.subscribe();
    assert_eq!(member(&sub, "id"), "2");
    assert_eq!(member(&sub, "subscription"), "/im/42");
    assert_eq!(member(&sub, "clientId"), "cid");
    let c = b.connect();
    assert_eq!(member(&c, "id"), "3");
    assert_eq!(member(&c, "connectionType"), "websocket");
    let (replies, pushes) = b.on_frame(vec![
        obj(vec![("channel", s("/meta/connect"))]),
        obj(vec![("channel", s("/meta/other"))]),
        obj(vec![("channel", s("/im/42")), ("data", obj(vec![("content", s("hi"))]))]),
        obj(vec![("channel", s("/im/42"))]),
        obj(vec![("channel", s("/meta/connect"))]),
    ]);
    assert_eq!(replies.len(), 2);
    assert_eq!(member(&replies[0], "id"), "4");
    assert_eq!(member(&replies[1], "id"), "5");
    assert_eq!(pushes.len(), 1);
    assert_eq!(pushes[0].channel, "/im/42");
    assert_eq!(b.msg_id, 5);
}

#[test]
fn handshake_without_reply_fails() {
    let mut b = BayeuxSession::new("1".to_string());
    match b.on_handshake_reply(None) {
        Err(e) => assert_eq!(e.message(), "WebSocket 握手失败"),
        Ok(_) => panic!("expected a failure"),
    }
}

#[test]
fn certificate_profiles() {
    let p = ca_profile();
    assert!(p.is_ca);
    assert!(p.alt_names.is_empty());
    assert_eq!(p.names[0], (NameKind::CommonName, "Weibo Client MITM CA".to_string()));
    assert_eq!(p.names[1], (NameKind::OrganizationName, "Weibo PC Client Dev".to_string()));
    assert_eq!(p.key_usages, vec![KeyUsage::KeyCertSign, KeyUsage::CrlSign, KeyUsage::DigitalSignature]);
    assert_eq!(p.valid_days, 3650);
    let d = domain_profile("login.sina.com.cn");
    assert!(!d.is_ca);
    assert_eq!(d.alt_names, vec!["login.sina.com.cn".to_string()]);
    assert_eq!(d.key_usages, vec![KeyUsage::DigitalSignature, KeyUsage::KeyEncipherment]);
    assert_eq!(d.valid_days, 30);
}

#[test]
fn test_generate_ca() {
    let manager = CaManager::generate().expect("Failed to init CA manager");
    assert!(!manager.ca_cert_pem.is_empty());
    assert!(!manager.ca_key_pem.is_empty());
    assert!(manager.ca_cert_pem.contains("BEGIN CERTIFICATE"));
    assert!(manager.ca_key_pem.contains("BEGIN PRIVATE KEY"));
}

#[test]
fn test_sign_domain() {
    let manager = CaManager::generate().expect("Failed to init CA manager");
    let (cert_pem, key_pem) = manager.sign_domain("login.sina.com.cn").expect("Failed to sign domain");
    assert!(!cert_pem.is_empty());
    assert!(!key_pem.is_empty());
    assert!(cert_pem.contains("BEGIN CERTIFICATE"));
    assert!(key_pem.contains("BEGIN PRIVATE KEY"));
}

#[test]
fn test_reload_ca() {
    let m1 = CaManager::generate().expect("Failed to init CA manager");
    let cert1 = m1.ca_cert_pem.clone();
    let key1 = m1.ca_key_pem.clone();
    drop(m1);
    let m2 = CaManager::from_pem(cert1.clone(), key1).expect("Failed to reload CA manager");
    assert_eq!(cert1, m2.ca_cert_pem);
    assert_eq!(m2.ca_cert_pem(), cert1.as_str());
    assert!(m2.sign_domain("weibo.com").is_ok());
}

#[test]
fn bad_pem_is_refused() {
    assert!(CaManager::from_pem("nope".to_string(), "nope".to_string()).is_err());
}

#[test]
fn ca_keeps_its_key_and_reloads_it() {
    let m = CaManager::generate().expect("Failed to init CA manager");
    assert_eq!(m.ca_key.pem(), m.ca_key_pem);
    let m2 = CaManager::from_pem(m.ca_cert_pem.clone(), m.ca_key_pem.clone()).expect("reload");
    assert_eq!(m2.ca_key.pem(), m.ca_key.pem());
    assert_eq!(m2.ca_key_pem, m.ca_key_pem);
}

#[test]
fn non_ascii_domain_is_refused() {
    let m = CaManager::generate().expect("Failed to init CA manager");
    assert!(matches!(m.sign_domain("微博.com"), Err(CaError::Rcgen(_))));
    let (c1, k1) = m.sign_domain("a.example").unwrap();
    let (_, k2) = m.sign_domain("a.example").unwrap();
    assert!(c1.starts_with("-----BEGIN CERTIFICATE-----"));
    assert_ne!(k1, k2);
}

#[test]
fn frames_are_read_and_written_as_json() {
    let items = frame_items(r#"[{"channel":"/im/1","data":{"n":5}}, 3]"#).unwrap();
    assert_eq!(items.len(), 2);
    match &items[0] {
        Json::Object(m) => {
            assert_eq!(m[0].0, "channel");
            assert!(matches!(&m[0].1, Json::Str(c) if c == "/im/1"));
        }
        _ => panic!("expected an object"),
    }
    assert!(matches!(items[1], Json::Number(JsonNumber { int: Some(3), uint: Some(3) })));
    assert!(frame_items(r#"{"a":1}"#).is_none());
    assert!(frame_items("not json").is_none());
    let msg = Json::Array(vec![Json::Object(vec![
        ("id".to_string(), Json::Str("1".to_string())),
        ("n".to_string(), Json::Number(JsonNumber { int: Some(-2), uint: None })),
        ("ok".to_string(), Json::Bool(true)),
        ("x".to_string(), Json::Null),
    ])]);
    assert_eq!(frame_text(&msg), r#"[{"id":"1","n":-2,"ok":true,"x":null}]"#);
}

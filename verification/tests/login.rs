use base64::Engine as _;
use weibo_pc::bot::{generate_bd_data, pack_bd_data, rid_from_response, BdError};
use weibo_pc::chat::ChatData;
use weibo_pc::domain::{ActiveTab, Contact, LoginPhase, TimelineItem};
use weibo_pc::json::{Json, JsonNumber};
use weibo_pc::qr::{
    exchange_start, is_reply_ok, next_hop, qr_status_from_check, resolve_url, HopStep, QrError,
    QrSession, QrStatus,
};
use weibo_pc::session::{
    format_timeline_title, AppState, CookieAction, CookieEvent, LoginAction, LoginEvent, RenderActions,
    StartAction,
};
use weibo_pc::terminal::{home_line, terminal_poll_step, PollOutput, TerminalStep};
use weibo_pc::webview::{classify_ipc, final_result, IpcEvent, LoginResult};
use weibo_pc::ws::WsMessage;

fn num(v: i64) -> Json {
    Json::Number(JsonNumber { int: Some(v), uint: if v >= 0 { Some(v as u64) } else { None } })
}

fn obj(members: Vec<(&str, Json)>) -> Json {
    Json::Object(members.into_iter().map(|(k, v)| (k.to_string(), v)).collect())
}

fn s(t: &str) -> Json {
    Json::Str(t.to_string())
}

fn pairs(v: &[(&str, &str)]) -> Vec<(String, String)> {
    v.iter().map(|(a, b)| (a.to_string(), b.to_string())).collect()
}

#[test]
fn test_generate_bd_data_format() {
    let data = generate_bd_data().expect("generate bd data");
    assert!(data.starts_with("01"), "should start with 01");
    let b64 = &data[2..];
    let inner = base64::engine::general_purpose::STANDARD.decode(b64).expect("base64 decode");
    assert_eq!(&inner[..2], b"01", "inner marker 01");
    assert!(inner.len() > 50);
}

#[test]
fn bd_data_packs_markers_around_blob_and_ciphertext() {
    let t = pack_bd_data(&[1, 2, 3], &[9]);
    let inner = base64::engine::general_purpose::STANDARD.decode(&t[2..]).unwrap();
    assert_eq!(inner, vec![b'0', b'1', 1, 2, 3, b'0', b'2', 9]);
    assert_eq!(t, "01MDEBAgMwMgk=");
}

#[test]
fn generated_data_holds_rsa_blob_and_padded_fingerprint() {
    let data = generate_bd_data().unwrap();
    let inner = base64::engine::general_purpose::STANDARD.decode(&data[2..]).unwrap();
    // 1024-bit RSA gives 128 bytes; then "02" and whole AES blocks.
    assert_eq!(&inner[130..132], b"02");
    assert_eq!((inner.len() - 132) % 16, 0);
    assert_ne!(generate_bd_data().unwrap(), data);
}

#[test]
fn rid_is_read_from_a_good_reply() {
    let body = obj(vec![("retcode", num(20000000)), ("data", obj(vec![("rid", s("abc"))]))]);
    assert_eq!(rid_from_response(body).unwrap(), "abc");
}

#[test]
fn rid_errors() {
    let body = obj(vec![("retcode", num(50000)), ("msg", s("bad"))]);
    match rid_from_response(body) {
        Err(e) => {
            assert_eq!(e.message(), "/sso/bd 错误: retcode=50000");
            match e {
                BdError::Retcode { code, msg } => {
                    assert_eq!(code, 50000);
                    assert!(matches!(msg, Some(Json::Str(m)) if m == "bad"));
                }
                _ => panic!("expected a retcode error"),
            }
        }
        Ok(_) => panic!("expected an error"),
    }
    match rid_from_response(obj(vec![])) {
        Err(e) => assert_eq!(e.message(), "/sso/bd 错误: retcode=-1"),
        Ok(_) => panic!("expected an error"),
    }
    match rid_from_response(obj(vec![("retcode", num(20000000))])) {
        Err(e) => assert_eq!(e.message(), "响应中无 rid 字段"),
        Ok(_) => panic!("expected an error"),
    }
}

#[test]
fn qr_check_codes() {
    assert!(matches!(qr_status_from_check(50114001, None, None), QrStatus::Waiting));
    assert!(matches!(qr_status_from_check(50114002, None, None), QrStatus::Scanned));
    assert!(matches!(qr_status_from_check(50114004, None, None), QrStatus::Expired));
    let data = obj(vec![("alt", s("A")), ("url", s("https://login.sina.com.cn/x"))]);
    match qr_status_from_check(20000000, None, Some(data)) {
        QrStatus::Confirmed { alt, redirect_url } => {
            assert_eq!(alt, "A");
            assert_eq!(redirect_url, "https://login.sina.com.cn/x");
        }
        _ => panic!("expected a confirmation"),
    }
    match qr_status_from_check(20000000, None, None) {
        QrStatus::Confirmed { alt, redirect_url } => {
            assert_eq!(alt, "");
            assert_eq!(redirect_url, "");
        }
        _ => panic!("expected a confirmation"),
    }
    match qr_status_from_check(123, Some("m".to_string()), None) {
        QrStatus::Unknown { code, msg, raw } => {
            assert_eq!(code, 123);
            assert_eq!(msg, "m");
            assert!(matches!(raw, Json::Null));
        }
        _ => panic!("expected an unknown status"),
    }
}

#[test]
fn qr_session_image_and_poll_query() {
    let mut q = QrSession::new();
    assert!(matches!(q.poll_query(), Err(QrError::NoQrCode)));
    assert!(matches!(q.image_url_to_download(), Err(QrError::NoQrCode)));
    match q.apply_qr_image(1, None) {
        Err(e) => assert_eq!(e.message(), "二维码 retcode=1"),
        Ok(_) => panic!("expected an error"),
    }
    match q.apply_qr_image(20000000, None) {
        Err(e) => assert_eq!(e.message(), "无 data"),
        Ok(_) => panic!("expected an error"),
    }
    q.apply_qr_image(20000000, Some(("QR1".to_string(), "https://img/x.png".to_string()))).unwrap();
    assert_eq!(q.image_url_to_download().unwrap(), "https://img/x.png");
    assert!(matches!(q.image_to_save(), Err(QrError::NoImage)));
    q.apply_image(vec![1, 2]);
    assert_eq!(q.image_to_save().unwrap(), &vec![1u8, 2]);
    assert_eq!(
        q.poll_query().unwrap(),
        pairs(&[("entry", "miniblog"), ("qrid", "QR1"), ("ver", "20250520")])
    );
    q.set_rid("R".to_string());
    assert_eq!(
        q.poll_query().unwrap(),
        pairs(&[("entry", "miniblog"), ("qrid", "QR1"), ("ver", "20250520"), ("rid", "R")])
    );
    q.apply_qr_image(20000000, Some(("QR2".to_string(), "u2".to_string()))).unwrap();
    assert!(q.image_bytes.is_none());
}

#[test]
fn cookie_jar_through_warmup_and_exchange() {
    let mut q = QrSession::new();
    assert_eq!(q.cookie_header(), "");
    q.apply_warmup_cookies(pairs(&[("X", "1"), ("X", "2")]));
    assert_eq!(q.cookie_jar.get("X").unwrap(), "2");
    q.apply_set_cookies(pairs(&[("SUBP", "p"), ("SUB", "s"), ("SUB", "other"), ("X", "deleted")]));
    assert_eq!(q.cookie_header(), "SUB=s; SUBP=p");
    assert!(q.cookie_jar.get("X").is_none());
    q.apply_set_cookies(pairs(&[("SUB", "")]));
    assert_eq!(q.cookie_header(), "SUBP=p");
    let store = q.stored_cookies();
    assert_eq!(store.cookies.len(), 1);
    assert_eq!(store.cookies[0].name, "SUBP");
    assert_eq!(store.cookies[0].value, "p");
    assert_eq!(store.cookies[0].domain, "weibo.com");
    assert_eq!(store.cookies[0].path, "/");
}

#[test]
fn ticket_exchange_hops() {
    match exchange_start("") {
        Err(e) => assert_eq!(e.message(), "redirect_url 为空"),
        Ok(_) => panic!("expected an error"),
    }
    assert_eq!(exchange_start("https://a/b").unwrap(), "https://a/b");
    match next_hop(0, "https://a.com/x/y", 302, Some("/z?q=1".to_string())).unwrap() {
        HopStep::Follow(u) => assert_eq!(u, "https://a.com/z?q=1"),
        HopStep::Done => panic!("expected a redirect"),
    }
    match next_hop(0, "https://a.com/x/y", 301, Some("http://b.com/".to_string())).unwrap() {
        HopStep::Follow(u) => assert_eq!(u, "http://b.com/"),
        HopStep::Done => panic!("expected a redirect"),
    }
    assert!(matches!(next_hop(0, "https://a.com/", 200, Some("/x".to_string())).unwrap(), HopStep::Done));
    assert!(matches!(next_hop(0, "https://a.com/", 302, None).unwrap(), HopStep::Done));
    assert!(matches!(next_hop(11, "https://a.com/", 302, Some("/x".to_string())).unwrap(), HopStep::Done));
    assert!(matches!(next_hop(10, "https://a.com/", 399, Some("/x".to_string())).unwrap(), HopStep::Follow(_)));
    match next_hop(0, "not a url", 302, Some("/x".to_string())) {
        Err(QrError::BadLocation(m)) => assert!(!m.is_empty()),
        _ => panic!("expected an error"),
    }
}

#[test]
fn resolving_locations() {
    assert_eq!(resolve_url("https://a.com/p/q", "r").unwrap(), "https://a.com/p/r");
    assert_eq!(resolve_url("https://a.com/p/q", "httpx").unwrap(), "httpx");
    assert!(resolve_url("", "/x").is_err());
}

#[test]
fn reply_ok_flags() {
    assert!(is_reply_ok(&obj(vec![("ok", num(1))])));
    assert!(!is_reply_ok(&obj(vec![("ok", num(0))])));
    assert!(!is_reply_ok(&obj(vec![])));
    assert!(!is_reply_ok(&obj(vec![("ok", s("1"))])));
}

#[test]
fn app_starts_with_cookie_check_or_qr_login() {
    let (state, action) = AppState::new(Some("SUB=x".to_string()));
    assert!(matches!(state.phase, LoginPhase::CheckingCookie));
    assert!(matches!(action, StartAction::CheckCookie(ref c) if c == "SUB=x"));
    let (_, action) = AppState::new(None);
    assert!(matches!(action, StartAction::QrLogin));
}

#[test]
fn qr_login_flow() {
    let (mut st, _) = AppState::new(None);
    assert_eq!(st.login_step(LoginEvent::QrReady(vec![7])), LoginAction::Poll);
    match &st.phase {
        LoginPhase::WaitingScan { status, qr_png_bytes } => {
            assert_eq!(status, "📱 请用微博手机客户端扫描二维码");
            assert_eq!(qr_png_bytes.as_deref(), Some(&[7u8][..]));
        }
        _ => panic!("expected the QR screen"),
    }
    assert_eq!(st.login_step(LoginEvent::Polled(QrStatus::Waiting)), LoginAction::PollAfterDelay);
    assert!(matches!(&st.phase, LoginPhase::WaitingScan { status, qr_png_bytes: Some(_) } if status == "📱 等待扫码..."));
    assert_eq!(st.login_step(LoginEvent::Polled(QrStatus::Scanned)), LoginAction::PollAfterDelay);
    assert!(matches!(&st.phase, LoginPhase::WaitingScan { qr_png_bytes: Some(_), .. }));
    assert_eq!(st.login_step(LoginEvent::PollFailed("net".to_string())), LoginAction::PollAfterDelay);
    let a = st.login_step(LoginEvent::Polled(QrStatus::Confirmed {
        alt: "A".to_string(),
        redirect_url: "U".to_string(),
    }));
    assert_eq!(a, LoginAction::ExchangeTicket { alt: "A".to_string(), redirect_url: "U".to_string() });
    assert!(matches!(&st.phase, LoginPhase::Exchanging(m) if m == "✅ 确认成功！获取票据..."));
    assert_eq!(st.login_step(LoginEvent::TicketExchanged("SUB=1".to_string())), LoginAction::FetchHome("SUB=1".to_string()));
    assert!(matches!(st.phase, LoginPhase::FetchingHome));
    let items = vec![TimelineItem { user_name: "u".to_string(), text: "t".to_string() }];
    assert_eq!(st.login_step(LoginEvent::HomeFetched(items, "T".to_string())), LoginAction::Finish);
    assert!(matches!(&st.phase, LoginPhase::HomeLoaded { items, title } if items.len() == 1 && title == "T"));
}

#[test]
fn qr_login_failures_and_expiry() {
    let (mut st, _) = AppState::new(None);
    assert_eq!(st.login_step(LoginEvent::QrFailed("x".to_string())), LoginAction::Finish);
    assert!(matches!(&st.phase, LoginPhase::Error(m) if m == "连接失败: x"));
    assert_eq!(st.login_step(LoginEvent::Polled(QrStatus::Expired)), LoginAction::RefreshQr);
    assert!(matches!(&st.phase, LoginPhase::Loading(m) if m == "⚠️ 二维码过期, 刷新..."));
    assert_eq!(st.login_step(LoginEvent::QrRefreshed(vec![1])), LoginAction::PollAfterDelay);
    assert_eq!(st.login_step(LoginEvent::QrRefreshFailed("e".to_string())), LoginAction::PollAfterDelay);
    assert_eq!(st.login_step(LoginEvent::TicketFailed("bad".to_string())), LoginAction::Finish);
    assert!(matches!(&st.phase, LoginPhase::Error(m) if m == "登录失败: bad"));
}

#[test]
fn saved_cookie_flow() {
    let (mut st, _) = AppState::new(Some("c".to_string()));
    assert_eq!(st.cookie_step(CookieEvent::Checked(Some(false))), CookieAction::QrLogin);
    assert!(matches!(&st.phase, LoginPhase::Loading(m) if m == "Cookie 已过期, 重新连接..."));
    assert_eq!(st.cookie_step(CookieEvent::Checked(None)), CookieAction::QrLogin);
    assert_eq!(st.cookie_step(CookieEvent::Checked(Some(true))), CookieAction::FetchHome);
    assert!(matches!(st.phase, LoginPhase::FetchingHome));
    assert_eq!(st.cookie_step(CookieEvent::HomeFetched(Vec::new(), "t".to_string())), CookieAction::Finish);
}

#[test]
fn render_actions_run_once_after_login() {
    let (mut st, _) = AppState::new(None);
    assert_eq!(st.on_render(), RenderActions { fetch_dm: false, start_ws: None });
    st.phase = LoginPhase::HomeLoaded { items: Vec::new(), title: String::new() };
    st.apply_chat_loaded(Vec::new(), Some(("42".to_string(), "me".to_string())));
    assert_eq!(st.on_render(), RenderActions { fetch_dm: true, start_ws: Some("42".to_string()) });
    assert_eq!(st.on_render(), RenderActions { fetch_dm: false, start_ws: None });
}

#[test]
fn tabs_logout_and_unread() {
    let (mut st, _) = AppState::new(None);
    assert!(st.switch_tab(ActiveTab::Chat));
    assert!(!st.switch_tab(ActiveTab::Home));
    assert_eq!(st.active_tab, ActiveTab::Home);
    st.apply_dm_unread(5);
    assert_eq!(st.dm_unread, 5);
    st.logout();
    assert!(matches!(&st.phase, LoginPhase::Loading(m) if m == "正在登出..."));
}

#[test]
fn loading_more_of_the_timeline() {
    let (mut st, _) = AppState::new(None);
    st.phase = LoginPhase::HomeLoaded {
        items: vec![TimelineItem { user_name: "a".to_string(), text: "b".to_string() }],
        title: String::new(),
    };
    assert_eq!(st.try_load_more(10, 20), None);
    st.since_id = "s1".to_string();
    st.feed_list_id = Some("f".to_string());
    assert_eq!(st.try_load_more(10, 20), None);
    assert_eq!(st.try_load_more(17, 20), Some(("s1".to_string(), Some("f".to_string()))));
    assert!(st.loading_more);
    assert_eq!(st.try_load_more(20, 20), None);
    st.apply_more_items(vec![TimelineItem { user_name: "c".to_string(), text: "d".to_string() }], "s2".to_string());
    assert!(!st.loading_more);
    assert_eq!(st.since_id, "s2");
    assert!(matches!(&st.phase, LoginPhase::HomeLoaded { items, title } if items.len() == 2 && title == "📰 首页时间线 (2条)"));
}

#[test]
fn timeline_titles() {
    assert_eq!(format_timeline_title(0), "📰 首页时间线 (0条)");
    assert_eq!(format_timeline_title(25), "📰 首页时间线 (25条)");
}

#[test]
fn push_creates_chat_state() {
    let (mut st, _) = AppState::new(None);
    let data = obj(vec![("from_uid", num(3)), ("content", s("hi"))]);
    assert!(st.on_push(WsMessage { channel: "/im/1".to_string(), data }, 9));
    assert!(st.chat_data.is_some());
}

#[test]
fn terminal_reports_each_status_once() {
    let mut last = String::new();
    assert!(matches!(terminal_poll_step(&mut last, QrStatus::Waiting), TerminalStep::Wait(PollOutput::Dot)));
    assert!(matches!(terminal_poll_step(&mut last, QrStatus::Waiting), TerminalStep::Wait(PollOutput::Nothing)));
    assert!(matches!(terminal_poll_step(&mut last, QrStatus::Scanned), TerminalStep::Wait(PollOutput::ScannedPrompt)));
    assert!(matches!(terminal_poll_step(&mut last, QrStatus::Scanned), TerminalStep::Wait(PollOutput::Nothing)));
    assert!(matches!(terminal_poll_step(&mut last, QrStatus::Expired), TerminalStep::Refresh));
    assert_eq!(last, "");
    match terminal_poll_step(&mut last, QrStatus::Confirmed { alt: "a".to_string(), redirect_url: "u".to_string() }) {
        TerminalStep::Exchange { alt, redirect_url } => {
            assert_eq!(alt, "a");
            assert_eq!(redirect_url, "u");
        }
        _ => panic!("expected the exchange"),
    }
    let st = QrStatus::Unknown { code: 1, msg: String::new(), raw: Json::Null };
    assert!(matches!(terminal_poll_step(&mut last, st), TerminalStep::Other(QrStatus::Unknown { code: 1, .. })));
}

#[test]
fn home_lines() {
    let item = TimelineItem { user_name: "u".to_string(), text: "short".to_string() };
    assert_eq!(home_line(0, 3, &item), "  [1/3] u: short");
    let long = TimelineItem { user_name: "v".to_string(), text: "a".repeat(80) };
    assert_eq!(home_line(1, 3, &long), format!("  [2/3] v: {}", "a".repeat(70)));
}

#[test]
fn webview_messages() {
    let m = obj(vec![("type", s("logged_in")), ("cookies", s("a=b"))]);
    match classify_ipc(&m) {
        IpcEvent::LoggedIn(l) => {
            assert_eq!(l.cookies, "a=b");
            assert!(!l.api_ok);
        }
        _ => panic!("expected a login"),
    }
    match classify_ipc(&obj(vec![("type", s("api_result")), ("ok", num(1))])) {
        IpcEvent::ApiResult(l) => {
            assert!(l.api_ok);
            assert_eq!(l.cookies, "");
        }
        _ => panic!("expected an API result"),
    }
    assert!(matches!(classify_ipc(&obj(vec![("type", s("other"))])), IpcEvent::Ignored));
    assert!(matches!(classify_ipc(&Json::Null), IpcEvent::Ignored));
}

#[test]
fn webview_result_choice() {
    let first = LoginResult { cookies: "c".to_string(), api_ok: false };
    let second = LoginResult { cookies: String::new(), api_ok: true };
    assert!(final_result(first.clone(), Some(second)).api_ok);
    assert_eq!(final_result(first.clone(), None).cookies, "c");
    let closed = LoginResult { cookies: String::new(), api_ok: false };
    let r = final_result(closed, Some(LoginResult { cookies: "x".to_string(), api_ok: true }));
    assert!(!r.api_ok);
}

#[test]
fn jar_names_stay_distinct() {
    let mut q = QrSession::new();
    q.apply_warmup_cookies(pairs(&[("A", "1"), ("B", "2"), ("A", "3")]));
    q.apply_set_cookies(pairs(&[("B", "x"), ("C", "4"), ("C", "5"), ("A", "")]));
    let store = q.stored_cookies();
    let mut names: Vec<String> = store.cookies.iter().map(|c| c.name.clone()).collect();
    let n = names.len();
    names.sort();
    names.dedup();
    assert_eq!(names.len(), n);
    assert_eq!(names, vec!["B".to_string(), "C".to_string()]);
    assert_eq!(q.cookie_jar.get("B").unwrap(), "2");
    assert_eq!(q.cookie_jar.get("C").unwrap(), "4");
}

#[test]
fn push_updates_existing_chat_state() {
    let (mut st, _) = AppState::new(None);
    let mut chat = ChatData::new();
    chat.my_uid = "7".to_string();
    chat.selected_uid = Some("3".to_string());
    chat.contacts.push(Contact {
        user_id: "3".to_string(),
        screen_name: "c".to_string(),
        avatar: String::new(),
        unread_count: 2,
        last_message: "old".to_string(),
        last_time: "t".to_string(),
        is_group: false,
    });
    st.chat_data = Some(chat);
    let data = obj(vec![("from_uid", num(3)), ("content", s("hello"))]);
    assert!(st.on_push(WsMessage { channel: "/im/1".to_string(), data }, 9));
    let c = st.chat_data.as_ref().unwrap();
    assert_eq!(c.my_uid, "7");
    assert_eq!(c.messages.len(), 1);
    assert_eq!(c.messages[0].text, "hello");
    assert_eq!(c.contacts[0].last_message, "hello");
    assert_eq!(c.contacts[0].unread_count, 3);
}

#[test]
fn renders_fetch_and_start_once() {
    let (mut st, _) = AppState::new(None);
    st.phase = LoginPhase::HomeLoaded { items: Vec::new(), title: String::new() };
    let mut fetches = 0;
    for _ in 0..5 {
        if st.on_render().fetch_dm {
            fetches += 1;
        }
    }
    assert_eq!(fetches, 1);
    assert!(st.dm_fetched && st.ws_started);
}

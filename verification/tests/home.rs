use weibo_pc::audio::play_notification;
use weibo_pc::cookies::{
    build_full_cookie_header, cookie_data_from_json, cookie_data_of_text, cookie_header_from_input,
    full_cookie_header_of_text, xsrf_of_text,
    get_xsrf_token, COOKIE_FILE,
};
use weibo_pc::json::{Json, JsonNumber};
use weibo_pc::timeline::{
    following_list_id_of, friendstimeline_url_for, home_after_hotsearch, home_after_timeline,
    hotsearch_items, parse_statuses, timeline_from_response, HomeStep, MAX_HOTSEARCH_ITEMS,
};
use weibo_pc::domain::TimelineItem;

fn num(v: i64) -> Json {
    Json::Number(JsonNumber { int: Some(v), uint: if v >= 0 { Some(v as u64) } else { None } })
}

fn obj(members: Vec<(&str, Json)>) -> Json {
    Json::Object(members.into_iter().map(|(k, v)| (k.to_string(), v)).collect())
}

fn s(t: &str) -> Json {
    Json::Str(t.to_string())
}

fn cookie(name: &str, value: &str) -> Json {
    obj(vec![("name", s(name)), ("value", s(value)), ("domain", s("weibo.com"))])
}

fn doc(cs: Vec<Json>) -> Json {
    obj(vec![("cookies", Json::Array(cs))])
}

#[test]
fn statuses_with_defaults() {
    let data = obj(vec![
        ("ok", num(1)),
        (
            "statuses",
            Json::Array(vec![
                obj(vec![("user", obj(vec![("screen_name", s("A"))])), ("text_raw", s("raw")), ("text", s("html"))]),
                obj(vec![("text", s("only html"))]),
                obj(vec![]),
            ]),
        ),
    ]);
    let items = parse_statuses(&data);
    assert_eq!(items.len(), 3);
    assert_eq!((items[0].user_name.as_str(), items[0].text.as_str()), ("A", "raw"));
    assert_eq!((items[1].user_name.as_str(), items[1].text.as_str()), ("?", "only html"));
    assert_eq!((items[2].user_name.as_str(), items[2].text.as_str()), ("?", ""));
    assert_eq!(timeline_from_response(&data).unwrap().len(), 3);
    assert!(timeline_from_response(&obj(vec![("ok", num(0)), ("statuses", Json::Array(vec![]))])).is_none());
    assert!(parse_statuses(&obj(vec![])).is_empty());
}

#[test]
fn friends_timeline_url() {
    assert_eq!(
        friendstimeline_url_for("100017"),
        "https://weibo.com/ajax/feed/friendstimeline?list_id=100017&refresh=0&since_id=0&count=25&fid=100017"
    );
}

#[test]
fn following_list_is_the_first_10001_group() {
    let data = obj(vec![(
        "groups",
        Json::Array(vec![
            obj(vec![("group", Json::Array(vec![obj(vec![("gid", s("2000"))])]))]),
            obj(vec![("title", s("no groups"))]),
            obj(vec![(
                "group",
                Json::Array(vec![obj(vec![("gid", num(100015))]), obj(vec![("gid", s("100016789"))]), obj(vec![("gid", s("10001x"))])]),
            )]),
        ]),
    )]);
    assert_eq!(following_list_id_of(&data), Some("100016789".to_string()));
    assert_eq!(following_list_id_of(&obj(vec![])), None);
    assert_eq!(following_list_id_of(&obj(vec![("groups", Json::Array(vec![]))])), None);
}

#[test]
fn hot_search_entries() {
    let band = Json::Array(vec![
        obj(vec![("word", s("w1")), ("num", num(123)), ("note", s("n1"))]),
        obj(vec![("word", s("w2")), ("num", num(5))]),
        obj(vec![("category", s("社会"))]),
        obj(vec![("word", s("w4")), ("num", num(-3))]),
    ]);
    let items = hotsearch_items(&obj(vec![("data", obj(vec![("realtime", band)]))]));
    assert_eq!(items.len(), 4);
    assert_eq!(items[0].text, "🔥 热度 123 — n1");
    assert_eq!(items[1].text, "🔥 热度 5");
    assert_eq!((items[2].user_name.as_str(), items[2].text.as_str()), ("?", "[社会]"));
    assert_eq!(items[3].text, "");
    let many: Vec<Json> = (0..60).map(|i| obj(vec![("word", s(&format!("w{}", i)))])).collect();
    let items = hotsearch_items(&obj(vec![("data", obj(vec![("band_list", Json::Array(many))]))]));
    assert_eq!(items.len(), MAX_HOTSEARCH_ITEMS);
    assert!(hotsearch_items(&obj(vec![])).is_empty());
}

#[test]
fn home_choice() {
    let one = vec![TimelineItem { user_name: "a".to_string(), text: "b".to_string() }];
    match home_after_timeline(Some(one)) {
        HomeStep::Show(items, title) => {
            assert_eq!(items.len(), 1);
            assert_eq!(title, "📰 首页时间线 (1条)");
        }
        HomeStep::FetchHotsearch => panic!("expected the timeline"),
    }
    assert!(matches!(home_after_timeline(Some(Vec::new())), HomeStep::FetchHotsearch));
    assert!(matches!(home_after_timeline(None), HomeStep::FetchHotsearch));
    let (items, title) = home_after_hotsearch(Some(vec![TimelineItem { user_name: "w".to_string(), text: String::new() }]));
    assert_eq!(items.len(), 1);
    assert_eq!(title, "🔥 热搜榜 (1条)");
    let (items, title) = home_after_hotsearch(None);
    assert!(items.is_empty());
    assert_eq!(title, "加载失败");
}

#[test]
fn saved_cookie_uses_sub_and_subp() {
    let d = doc(vec![cookie("SUB", "old"), cookie("X", "1"), cookie("SUBP", "p"), cookie("SUB", "new")]);
    let c = cookie_data_from_json(&d).unwrap();
    assert_eq!(c.header, "SUB=new; SUBP=p");
    assert_eq!(c.sub, "new");
    let c = cookie_data_from_json(&doc(vec![cookie("SUB", "only")])).unwrap();
    assert_eq!(c.header, "SUB=only");
    assert!(cookie_data_from_json(&doc(vec![cookie("SUB", "")])).is_none());
    assert!(cookie_data_from_json(&doc(vec![cookie("SUBP", "p")])).is_none());
    assert!(cookie_data_from_json(&obj(vec![])).is_none());
}

#[test]
fn full_cookie_header_joins_all_named_values() {
    let d = doc(vec![cookie("A", "1"), obj(vec![("name", s("broken"))]), cookie("B", "2")]);
    assert_eq!(build_full_cookie_header(&d), "A=1; B=2");
    assert_eq!(build_full_cookie_header(&obj(vec![])), "");
}

#[test]
fn xsrf_token_is_the_first_with_a_value() {
    let d = doc(vec![obj(vec![("name", s("XSRF-TOKEN"))]), cookie("XSRF-TOKEN", "t1"), cookie("XSRF-TOKEN", "t2")]);
    assert_eq!(get_xsrf_token(&d), Some("t1".to_string()));
    assert_eq!(get_xsrf_token(&doc(vec![cookie("A", "1")])), None);
}

#[test]
fn pasted_cookie_input() {
    assert_eq!(cookie_header_from_input("  abc \n"), Some("SUB=abc".to_string()));
    assert_eq!(cookie_header_from_input(" SUB=a; SUBP=b "), Some("SUB=a; SUBP=b".to_string()));
    assert_eq!(cookie_header_from_input("   "), None);
    assert_eq!(cookie_header_from_input(""), None);
}

#[test]
fn cookie_file_name() {
    assert_eq!(COOKIE_FILE, "weibo_cookies.json");
    play_notification();
}

#[test]
fn cookie_file_text_is_read() {
    let text = r#"{"cookies":[{"name":"SUB","value":"s1"},{"name":"SUBP","value":"p1"},{"name":"XSRF-TOKEN","value":"x1"}]}"#;
    let c = cookie_data_of_text(text).unwrap();
    assert_eq!(c.header, "SUB=s1; SUBP=p1");
    assert_eq!(c.sub, "s1");
    assert_eq!(full_cookie_header_of_text(text), "SUB=s1; SUBP=p1; XSRF-TOKEN=x1");
    assert_eq!(xsrf_of_text(text).unwrap(), "x1");
    assert!(cookie_data_of_text("{").is_none());
    assert_eq!(full_cookie_header_of_text(""), "");
    assert!(xsrf_of_text("[]").is_none());
}

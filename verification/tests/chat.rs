use weibo_pc::chat::{build_list_items, count_list_items, ChatData, ListAlign, ListItem, ListLayout};
use weibo_pc::domain::{ChatMessage, Contact, Emotion, GroupInfo, MediaType, MsgType};
use weibo_pc::json::{Json, JsonNumber};
use weibo_pc::ws::WsMessage;

fn msg(id: &str, text: &str, timestamp: u64) -> ChatMessage {
    ChatMessage {
        id: id.to_string(),
        sender_id: "1".to_string(),
        sender_name: "a".to_string(),
        sender_avatar: String::new(),
        text: text.to_string(),
        created_at: format!("t{}", timestamp),
        timestamp,
        is_self: false,
        msg_type: MsgType::Normal,
        media_type: MediaType::Text,
        fids: Vec::new(),
        role: 0,
    }
}

fn contact(uid: &str, name: &str, unread: u64) -> Contact {
    Contact {
        user_id: uid.to_string(),
        screen_name: name.to_string(),
        avatar: String::new(),
        unread_count: unread,
        last_message: String::new(),
        last_time: String::new(),
        is_group: false,
    }
}

fn num(v: u64) -> Json {
    Json::Number(JsonNumber { int: Some(v as i64), uint: Some(v) })
}

fn obj(members: Vec<(&str, Json)>) -> Json {
    Json::Object(members.into_iter().map(|(k, v)| (k.to_string(), v)).collect())
}

#[test]
fn separators_at_start_and_after_five_minutes() {
    let msgs = vec![msg("1", "a", 1000), msg("2", "b", 1200), msg("3", "c", 1601), msg("4", "d", 0)];
    let items = build_list_items(&msgs);
    assert_eq!(items.len(), 6);
    assert_eq!(count_list_items(&msgs), 6);
    match &items[0] {
        ListItem::TimeSeparator(t) => assert_eq!(t, "t1000"),
        _ => panic!("expected a separator"),
    }
    match &items[3] {
        ListItem::TimeSeparator(t) => assert_eq!(t, "t1601"),
        _ => panic!("expected a separator"),
    }
    match &items[5] {
        ListItem::Message(m) => assert_eq!(m.id, "4"),
        _ => panic!("expected a message"),
    }
}

#[test]
fn no_separator_without_time() {
    let msgs = vec![msg("1", "a", 0), msg("2", "b", 5000)];
    assert_eq!(count_list_items(&msgs), 2);
    assert_eq!(count_list_items(&[]), 0);
}

#[test]
fn list_length_law_on_values() {
    let msgs = vec![msg("1", "a", 10), msg("2", "b", 400), msg("3", "c", 500)];
    let items = build_list_items(&msgs);
    let seps = items.iter().filter(|i| matches!(i, ListItem::TimeSeparator(_))).count();
    assert_eq!(items.len(), msgs.len() + seps);
    assert_eq!(seps, 2);
}

#[test]
fn new_chat_data_is_empty_and_loading() {
    let c = ChatData::new();
    assert!(c.loading);
    assert!(c.contacts.is_empty());
    assert!(c.has_more);
    assert!(c.msg_list.is_none());
}

#[test]
fn selecting_and_loading_history() {
    let mut c = ChatData::new();
    c.begin_select("u1".to_string());
    assert!(c.messages_loading);
    let page: Vec<ChatMessage> = (0..30).map(|i| msg(&format!("m{}", i), "x", 0)).collect();
    c.apply_messages("u1".to_string(), page);
    assert!(!c.messages_loading);
    assert!(c.has_more);
    assert_eq!(c.oldest_mid.as_deref(), Some("m0"));
    assert_eq!(c.msg_list, Some(ListLayout { item_count: 30, alignment: ListAlign::Bottom }));
    c.apply_messages("u2".to_string(), vec![msg("k", "y", 0)]);
    assert!(!c.has_more);
    assert_eq!(c.selected_uid.as_deref(), Some("u2"));
}

#[test]
fn scrolling_to_top_loads_older_then_prepends() {
    let mut c = ChatData::new();
    let page: Vec<ChatMessage> = (0..30).map(|i| msg(&format!("m{}", i), "x", 0)).collect();
    c.apply_messages("u".to_string(), page);
    assert_eq!(c.on_scroll(3), None);
    assert_eq!(c.on_scroll(0), Some("m0".to_string()));
    assert!(c.messages_loading);
    assert_eq!(c.on_scroll(0), None);
    c.apply_older_messages(vec![msg("o1", "old", 0), msg("o2", "old", 0)]);
    assert_eq!(c.messages.len(), 32);
    assert_eq!(c.messages[0].id, "o1");
    assert_eq!(c.messages[2].id, "m0");
    assert_eq!(c.oldest_mid.as_deref(), Some("o1"));
    assert!(!c.has_more);
    assert_eq!(c.msg_list, Some(ListLayout { item_count: 32, alignment: ListAlign::Top }));
}

#[test]
fn no_older_messages_stops_loading() {
    let mut c = ChatData::new();
    c.apply_messages("u".to_string(), vec![msg("a", "x", 0)]);
    c.messages_loading = true;
    c.apply_older_messages(Vec::new());
    assert!(!c.has_more);
    assert!(!c.messages_loading);
    assert_eq!(c.messages.len(), 1);
}

#[test]
fn sent_message_is_appended() {
    let mut c = ChatData::new();
    c.apply_sent(Some(msg("s", "hi", 0)));
    assert_eq!(c.messages.len(), 1);
    assert_eq!(c.msg_list, Some(ListLayout { item_count: 1, alignment: ListAlign::Bottom }));
    c.apply_sent(None);
    assert_eq!(c.messages.len(), 1);
}

#[test]
fn typing_and_sending() {
    let mut c = ChatData::new();
    assert_eq!(c.on_input_key("h", "h", false), None);
    assert_eq!(c.on_input_key("space", "", false), None);
    assert_eq!(c.on_input_key("i", "i", false), None);
    assert_eq!(c.draft_text, "h i");
    assert_eq!(c.on_input_key("enter", "", true), None);
    assert_eq!(c.draft_text, "h i\n");
    assert_eq!(c.on_input_key("backspace", "", false), None);
    assert_eq!(c.draft_text, "h i");
    assert_eq!(c.on_input_key("return", "", false), Some("h i".to_string()));
    assert_eq!(c.draft_text, "");
    assert_eq!(c.on_input_key("enter", "", false), None);
    c.draft_text = "   ".to_string();
    assert_eq!(c.take_draft(), None);
    assert_eq!(c.draft_text, "   ");
}

#[test]
fn emoji_panel() {
    let mut c = ChatData::new();
    assert!(c.toggle_emoji_panel());
    c.apply_emotions(vec![Emotion { phrase: "[doge]".to_string(), url: String::new() }]);
    assert!(!c.toggle_emoji_panel());
    assert!(!c.toggle_emoji_panel());
    c.pick_emoji("[doge]");
    assert_eq!(c.draft_text, "[doge]");
    assert!(!c.show_emoji_panel);
}

#[test]
fn search_filters_contacts() {
    let mut c = ChatData::new();
    c.contacts = vec![contact("1", "张三", 0), contact("2", "李四", 0), contact("3", "张飞", 0)];
    assert_eq!(c.filtered_contacts(), vec![0, 1, 2]);
    c.on_search_key("z", "张");
    assert_eq!(c.filtered_contacts(), vec![0, 2]);
    c.on_search_key("backspace", "");
    assert_eq!(c.search_text, "");
    assert_eq!(c.filtered_contacts(), vec![0, 1, 2]);
}

#[test]
fn group_info_is_kept() {
    let mut c = ChatData::new();
    c.apply_group_info(GroupInfo {
        id: "g".to_string(),
        name: "n".to_string(),
        owner_uid: "o".to_string(),
        member_count: 3,
        members: Vec::new(),
    });
    assert_eq!(c.group_info.unwrap().member_count, 3);
}

#[test]
fn push_to_open_conversation_appends_and_counts_unread() {
    let mut c = ChatData::new();
    c.my_uid = "100".to_string();
    c.contacts = vec![contact("200", "friend", 2)];
    c.apply_messages("200".to_string(), vec![msg("a", "x", 0)]);
    let data = obj(vec![
        ("from_uid", num(200)),
        ("content", Json::Str("你好世界".to_string())),
        ("type", num(321)),
        ("media_type", num(1)),
        ("fids", Json::Array(vec![num(7), Json::Str("skip".to_string()), num(8)])),
        ("from_user_role", num(4)),
    ]);
    let play = c.apply_push(WsMessage { channel: "/im/1".to_string(), data }, 1234);
    assert!(play);
    assert_eq!(c.messages.len(), 2);
    let m = &c.messages[1];
    assert_eq!(m.text, "你好世界");
    assert_eq!(m.sender_id, "200");
    assert_eq!(m.sender_name, "?");
    assert_eq!(m.timestamp, 1234);
    assert_eq!(m.media_type, MediaType::Image);
    assert_eq!(m.fids, vec!["7".to_string(), "8".to_string()]);
    assert_eq!(m.role, 4);
    assert!(!m.is_self);
    assert_eq!(c.contacts[0].unread_count, 3);
    assert_eq!(c.contacts[0].last_message, "你好世界");
}

#[test]
fn own_push_to_group_does_not_count_unread() {
    let mut c = ChatData::new();
    c.my_uid = "100".to_string();
    c.contacts = vec![contact("555", "group", 0)];
    let data = obj(vec![
        ("from_uid", num(100)),
        ("gid", num(555)),
        ("text", Json::Str("mine".to_string())),
        ("from_user", obj(vec![("screen_name", Json::Str("me".to_string()))])),
    ]);
    let play = c.apply_push(WsMessage { channel: "/im/g".to_string(), data }, 1);
    assert!(!play);
    assert!(c.messages.is_empty());
    assert_eq!(c.contacts[0].unread_count, 0);
    assert_eq!(c.contacts[0].last_message, "mine");
}

#[test]
fn push_without_text_changes_nothing() {
    let mut c = ChatData::new();
    c.contacts = vec![contact("1", "a", 0)];
    let data = obj(vec![("from_uid", num(1))]);
    assert!(!c.apply_push(WsMessage { channel: String::new(), data }, 1));
    assert_eq!(c.contacts[0].unread_count, 0);
}

#[test]
fn long_push_preview_is_cut_to_fifty_characters() {
    let mut c = ChatData::new();
    c.contacts = vec![contact("9", "a", 0)];
    let long: String = std::iter::repeat('字').take(60).collect();
    let data = obj(vec![("from_uid", num(9)), ("content", Json::Str(long))]);
    c.apply_push(WsMessage { channel: String::new(), data }, 1);
    assert_eq!(c.contacts[0].last_message.chars().count(), 50);
}

//! The Bayeux (CometD) conversation with the IM push server: the messages
//! the client sends, and what it does with each frame it receives.

use vstd::prelude::*;

use crate::json::{self, Json, JsonNumber};
use crate::text;
use crate::text::{append_str, u64_to_decimal};

verus! {

broadcast use vstd::string::group_string_axioms;

/// A push received on a subscribed channel.
#[derive(Debug)]
pub struct WsMessage {
    pub channel: String,
    pub data: Json,
}

/// Errors of the push connection.
#[derive(Debug, PartialEq, Eq)]
pub enum WsError {
    /// The handshake reply carried no client id.
    HandshakeFailed,
}

impl WsError {
    /// The message that describes this error.
    pub fn message(&self) -> (r: String)
        ensures
            r@ == "WebSocket 握手失败"@,
    {
        "WebSocket 握手失败".to_string()
    }
}

/// The `i`-th member of `m` is `key` with the text `val`.
pub open spec fn member_text(m: Seq<(String, Json)>, i: int, key: Seq<char>, val: Seq<char>) -> bool {
    0 <= i < m.len() && m[i].0@ == key && json::str_of(Some(m[i].1)) == Some(val)
}

/// `j` is a one-element array holding an object with `n` members.
pub open spec fn single_object(j: Json, n: nat) -> bool {
    match j {
        Json::Array(a) => a@.len() == 1 && match a@[0] {
            Json::Object(m) => m@.len() == n,
            _ => false,
        },
        _ => false,
    }
}

/// The members of the object in a one-element array.
pub open spec fn members(j: Json) -> Seq<(String, Json)> {
    match j {
        Json::Array(a) => match a@[0] {
            Json::Object(m) => m@,
            _ => seq![],
        },
        _ => seq![],
    }
}

/// A `/meta/connect` message with id `id`.
pub open spec fn is_connect_message(j: Json, id: u64, client_id: Seq<char>) -> bool {
    &&& single_object(j, 4)
    &&& member_text(members(j), 0, "id"@, text::decimal(id as nat))
    &&& member_text(members(j), 1, "channel"@, "/meta/connect"@)
    &&& member_text(members(j), 2, "connectionType"@, "websocket"@)
    &&& member_text(members(j), 3, "clientId"@, client_id)
}

/// State of the push session.
pub struct BayeuxSession {
    /// The user whose channel is subscribed.
    pub uid: String,
    /// Id of the next message sent.
    pub msg_id: u64,
    /// Client id given by the handshake (empty before it).
    pub client_id: String,
}

fn text_member(key: &str, val: String) -> (r: (String, Json))
    ensures
        r.0@ == key@,
        json::str_of(Some(r.1)) == Some(val@),
{
    (key.to_string(), Json::Str(val))
}

fn single(ms: Vec<(String, Json)>) -> (r: Json)
    ensures
        single_object(r, ms@.len()),
        members(r) == ms@,
{
    let mut a: Vec<Json> = Vec::new();
    a.push(Json::Object(ms));
    Json::Array(a)
}

impl BayeuxSession {
    /// A session for the user `uid`, before the handshake.
    pub fn new(uid: String) -> (r: BayeuxSession)
        ensures
            r.uid@ == uid@,
            r.msg_id == 1,
            r.client_id@ == Seq::<char>::empty(),
    {
        BayeuxSession { uid, msg_id: 1, client_id: String::new() }
    }

    /// The handshake message; the message id advances.
    pub fn handshake(&mut self) -> (r: Json)
        requires
            old(self).msg_id < u64::MAX,
        ensures
            final(self).msg_id == old(self).msg_id + 1,
            final(self).uid@ == old(self).uid@,
            final(self).client_id@ == old(self).client_id@,
            single_object(r, 5),
            member_text(members(r), 0, "id"@, text::decimal(old(self).msg_id as nat)),
            member_text(members(r), 1, "version"@, "1.0"@),
            member_text(members(r), 2, "minimumVersion"@, "1.0"@),
            member_text(members(r), 3, "channel"@, "/meta/handshake"@),
            members(r)[4].0@ == "supportedConnectionTypes"@,
            match members(r)[4].1 {
                Json::Array(t) => t@.len() == 3 && json::str_of(Some(t@[0])) == Some("websocket"@)
                    && json::str_of(Some(t@[1])) == Some("long-polling"@) && json::str_of(
                    Some(t@[2]),
                ) == Some("callback-polling"@),
                _ => false,
            },
    {
        let mut types: Vec<Json> = Vec::new();
        types.push(Json::Str("websocket".to_string()));
        types.push(Json::Str("long-polling".to_string()));
        types.push(Json::Str("callback-polling".to_string()));
        let mut m: Vec<(String, Json)> = Vec::new();
        m.push(text_member("id", u64_to_decimal(self.msg_id)));
        m.push(text_member("version", "1.0".to_string()));
        m.push(text_member("minimumVersion", "1.0".to_string()));
        m.push(text_member("channel", "/meta/handshake".to_string()));
        m.push(("supportedConnectionTypes".to_string(), Json::Array(types)));
        self.msg_id = self.msg_id + 1;
        single(m)
    }

    /// Takes the client id from the handshake reply (the `clientId` of the
    /// first element of the reply array, if the reply was a text array);
    /// fails when there is none.
    pub fn on_handshake_reply(&mut self, reply: Option<Vec<Json>>) -> (r: Result<(), WsError>)
        ensures
            final(self).msg_id == old(self).msg_id,
            final(self).uid@ == old(self).uid@,
            final(self).client_id@ == match reply {
                Some(a) => if a@.len() > 0 {
                    match json::str_of(json::field(a@[0], "clientId"@)) {
                        Some(c) => c,
                        None => seq![],
                    }
                } else {
                    old(self).client_id@
                },
                None => old(self).client_id@,
            },
            r is Ok <==> final(self).client_id@.len() > 0,
    {
        if let Some(arr) = reply {
            if arr.len() > 0 {
                let f = arr[0].get("clientId");
                assert(json::deref_opt(f) == json::field(arr@[0], "clientId"@));
                let c = json::str_opt(f);
                assert(c.deep_view() == json::str_of(json::field(arr@[0], "clientId"@)));
                proof {
                    reveal_strlit("");
                }
                self.client_id = json::text_or(c, "");
            }
        }
        if self.client_id.as_str().is_empty() {
            Err(WsError::HandshakeFailed)
        } else {
            Ok(())
        }
    }

    /// The subscription to `/im/{uid}`; the message id advances.
    pub fn subscribe(&mut self) -> (r: Json)
        requires
            old(self).msg_id < u64::MAX,
        ensures
            final(self).msg_id == old(self).msg_id + 1,
            final(self).uid@ == old(self).uid@,
            final(self).client_id@ == old(self).client_id@,
            single_object(r, 4),
            member_text(members(r), 0, "id"@, text::decimal(old(self).msg_id as nat)),
            member_text(members(r), 1, "channel"@, "/meta/subscribe"@),
            member_text(members(r), 2, "subscription"@, "/im/"@ + old(self).uid@),
            member_text(members(r), 3, "clientId"@, old(self).client_id@),
    {
        let mut sub = "/im/".to_string();
        append_str(&mut sub, self.uid.as_str());
        let mut m: Vec<(String, Json)> = Vec::new();
        m.push(text_member("id", u64_to_decimal(self.msg_id)));
        m.push(text_member("channel", "/meta/subscribe".to_string()));
        m.push(text_member("subscription", sub));
        m.push(text_member("clientId", self.client_id.clone()));
        self.msg_id = self.msg_id + 1;
        single(m)
    }

    /// A `/meta/connect` message with the current id.
    pub fn connect(&self) -> (r: Json)
        ensures
            is_connect_message(r, self.msg_id, self.client_id@),
    {
        let mut m: Vec<(String, Json)> = Vec::new();
        m.push(text_member("id", u64_to_decimal(self.msg_id)));
        m.push(text_member("channel", "/meta/connect".to_string()));
        m.push(text_member("connectionType", "websocket".to_string()));
        m.push(text_member("clientId", self.client_id.clone()));
        single(m)
    }
}


/// The channel named by a received item (empty when it names none).
pub open spec fn item_channel(item: Json) -> Seq<char> {
    match json::str_of(json::field(item, "channel"@)) {
        Some(c) => c,
        None => seq![],
    }
}

/// A meta channel of the protocol.
pub open spec fn is_meta(c: Seq<char>) -> bool {
    c.len() >= 6 && c.take(6) == "/meta/"@
}

/// The item asks for a new long-poll `/meta/connect`.
pub open spec fn asks_reconnect(item: Json) -> bool {
    item_channel(item) == "/meta/connect"@
}

/// Number of reconnects that the items ask for.
pub open spec fn reconnects(items: Seq<Json>) -> nat
    decreases items.len(),
{
    if items.len() == 0 {
        0
    } else {
        reconnects(items.drop_last()) + if asks_reconnect(items.last()) {
            1nat
        } else {
            0nat
        }
    }
}

/// The pushes delivered for the items: every item outside the meta
/// channels that carries `data`, as (channel, data), in order.
pub open spec fn pushes(items: Seq<Json>) -> Seq<(Seq<char>, Json)>
    decreases items.len(),
{
    if items.len() == 0 {
        seq![]
    } else {
        let last = items.last();
        let before = pushes(items.drop_last());
        if !is_meta(item_channel(last)) && json::field(last, "data"@) is Some {
            before.push((item_channel(last), json::field(last, "data"@)->0))
        } else {
            before
        }
    }
}

proof fn lemma_reconnects_bound(items: Seq<Json>)
    ensures
        reconnects(items) <= items.len(),
    decreases items.len(),
{
    if items.len() > 0 {
        lemma_reconnects_bound(items.drop_last());
    }
}

/// No push comes from a meta channel, and every push is an item that
/// carried data.
pub proof fn law_pushes_not_meta(items: Seq<Json>)
    ensures
        forall|j: int| 0 <= j < pushes(items).len() ==> !is_meta(#[trigger] pushes(items)[j].0),
        pushes(items).len() <= items.len(),
    decreases items.len(),
{
    if items.len() > 0 {
        law_pushes_not_meta(items.drop_last());
    }
}

/// Every item of a frame is handled on its own: the pushes of two runs of
/// items one after the other are the pushes of the first run followed by
/// those of the second.
pub proof fn law_pushes_concat(a: Seq<Json>, b: Seq<Json>)
    ensures
        pushes(a + b) == pushes(a) + pushes(b),
    decreases b.len(),
{
    if b.len() == 0 {
        assert(a + b =~= a);
        assert(pushes(b) =~= Seq::<(Seq<char>, Json)>::empty());
        assert(pushes(a) + pushes(b) =~= pushes(a));
    } else {
        law_pushes_concat(a, b.drop_last());
        assert((a + b).drop_last() =~= a + b.drop_last());
        assert((a + b).last() == b.last());
        if !is_meta(item_channel(b.last())) && json::field(b.last(), "data"@) is Some {
            assert(pushes(a) + pushes(b) =~= (pushes(a) + pushes(b.drop_last())).push(
                (item_channel(b.last()), json::field(b.last(), "data"@)->0),
            ));
        }
    }
}

/// Every `/meta/connect` reply of a frame asks for one more long poll,
/// wherever it stands: the requests of two runs of items add up.
pub proof fn law_reconnects_concat(a: Seq<Json>, b: Seq<Json>)
    ensures
        reconnects(a + b) == reconnects(a) + reconnects(b),
    decreases b.len(),
{
    if b.len() == 0 {
        assert(a + b =~= a);
    } else {
        law_reconnects_concat(a, b.drop_last());
        assert((a + b).drop_last() =~= a + b.drop_last());
        assert((a + b).last() == b.last());
    }
}

/// One item gives one push, on its channel with its data, when it is
/// outside the meta channels and carries data; none otherwise.
pub proof fn law_push_of_item(x: Json)
    ensures
        !is_meta(item_channel(x)) && json::field(x, "data"@) is Some ==> pushes(seq![x]) == seq![
            (item_channel(x), json::field(x, "data"@)->0),
        ],
        !(!is_meta(item_channel(x)) && json::field(x, "data"@) is Some) ==> pushes(seq![x]).len() == 0,
{
    assert(seq![x].drop_last() =~= Seq::<Json>::empty());
    assert(seq![x].last() == x);
    assert(pushes(Seq::<Json>::empty()) == Seq::<(Seq<char>, Json)>::empty());
    assert(pushes(seq![x]) =~= if !is_meta(item_channel(x)) && json::field(x, "data"@) is Some {
        Seq::<(Seq<char>, Json)>::empty().push((item_channel(x), json::field(x, "data"@)->0))
    } else {
        Seq::<(Seq<char>, Json)>::empty()
    });
}

impl BayeuxSession {
    /// Handles one received frame (an array of items): every
    /// `/meta/connect` reply asks for the next long poll, sent with the next
    /// message id; every other meta item is skipped; every other item with
    /// `data` is a push.
    pub fn on_frame(&mut self, items: Vec<Json>) -> (r: (Vec<Json>, Vec<WsMessage>))
        requires
            old(self).msg_id + items@.len() <= u64::MAX,
        ensures
            final(self).uid@ == old(self).uid@,
            final(self).client_id@ == old(self).client_id@,
            final(self).msg_id == old(self).msg_id + reconnects(items@),
            r.0@.len() == reconnects(items@),
            forall|j: int|
                0 <= j < r.0@.len() ==> is_connect_message(
                    #[trigger] r.0@[j],
                    (old(self).msg_id + j + 1) as u64,
                    old(self).client_id@,
                ),
            r.1@.len() == pushes(items@).len(),
            forall|j: int|
                0 <= j < r.1@.len() ==> (#[trigger] r.1@[j]).channel@ == pushes(items@)[j].0
                    && r.1@[j].data == pushes(items@)[j].1,
    {
        let ghost items0 = items@;
        let ghost id0 = self.msg_id;
        let mut items = items;
        let mut replies: Vec<Json> = Vec::new();
        let mut out: Vec<WsMessage> = Vec::new();
        let mut i: usize = 0;
        while i < items.len()
            invariant
                0 <= i <= items@.len(),
                items@.len() == items0.len(),
                forall|q: int| i <= q < items@.len() ==> items@[q] == items0[q],
                id0 + items0.len() <= u64::MAX,
                self.msg_id == id0 + reconnects(items0.take(i as int)),
                self.uid@ == old(self).uid@,
                self.client_id@ == old(self).client_id@,
                replies@.len() == reconnects(items0.take(i as int)),
                forall|j: int|
                    0 <= j < replies@.len() ==> is_connect_message(
                        #[trigger] replies@[j],
                        (id0 + j + 1) as u64,
                        old(self).client_id@,
                    ),
                out@.len() == pushes(items0.take(i as int)).len(),
                forall|j: int|
                    0 <= j < out@.len() ==> (#[trigger] out@[j]).channel@ == pushes(
                        items0.take(i as int),
                    )[j].0 && out@[j].data == pushes(items0.take(i as int))[j].1,
            decreases items.len() - i,
        {
            let mut item = Json::Null;
            items.set_and_swap(i, &mut item);
            proof {
                assert(items0.take(i + 1).drop_last() =~= items0.take(i as int));
                assert(items0.take(i + 1).last() == item);
                lemma_reconnects_bound(items0.take(i as int));
            }
            let f = item.get("channel");
            assert(json::deref_opt(f) == json::field(item, "channel"@));
            let c = json::str_opt(f);
            proof {
                reveal_strlit("");
                reveal_strlit("/meta/");
                reveal_strlit("/meta/connect");
            }
            let channel = json::text_or(c, "");
            assert(channel@ == item_channel(item));
            if text::starts_with(channel.as_str(), "/meta/") {
                if text::same_str(channel.as_str(), "/meta/connect") {
                    self.msg_id = self.msg_id + 1;
                    replies.push(self.connect());
                } else {
                    assert(!asks_reconnect(item));
                }
            } else {
                assert("/meta/connect"@.take(6) =~= "/meta/"@);
                assert(!asks_reconnect(item));
                let data = json::take_member(item, "data");
                match data {
                    Some(d) => {
                        out.push(WsMessage { channel, data: d });
                    },
                    None => {},
                }
            }
            i = i + 1;
        }
        assert(items0.take(i as int) =~= items0);
        (replies, out)
    }
}
/// The items of a received frame: the elements of the JSON array that its
/// text holds; `None` when the text holds no array.
pub fn frame_items(text: &str) -> (r: Option<Vec<Json>>)
    ensures
        match json::json_of_text(text@) {
            Some(Json::Array(a)) => r == Some(a),
            _ => r is None,
        },
{
    match json::parse_json(text) {
        Some(Json::Array(a)) => Some(a),
        _ => None,
    }
}

/// The text of a frame to send: the JSON text of the message.
pub fn frame_text(msg: &Json) -> (r: String)
    ensures
        r@ == json::text_of_json(*msg),
{
    json::json_text(msg)
}

} // verus!

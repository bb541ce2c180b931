//! Chat view-model: the message list with its time separators, and the
//! state of the chat tab with the transitions that loading, sending,
//! typing and push messages make.

use vstd::prelude::*;

use crate::domain::{
    ChatMessage, ChatMessageView, Contact, Emotion, GroupInfo, MediaType, MsgType,
    media_type_of, msg_type_of,
};
use crate::json::{self, Json};
use crate::text;
use crate::text::{append_str, chars_of, push_char, string_of, trimmed, u64_to_decimal};
use crate::ws::WsMessage;

verus! {

broadcast use vstd::string::group_string_axioms;

// ---------------------------------------------------------------------------
// Message list with time separators
// ---------------------------------------------------------------------------

/// Message `i` is preceded by a time separator: it has a time, and it is
/// the first message or comes more than five minutes after a previous
/// message that has a time.
pub open spec fn has_separator(msgs: Seq<ChatMessage>, i: int) -> bool {
    msgs[i].timestamp > 0 && (i == 0 || (msgs[i - 1].timestamp > 0 && msgs[i].timestamp
        - msgs[i - 1].timestamp > 300))
}

/// Number of separators among the first `n` messages.
pub open spec fn separators_upto(msgs: Seq<ChatMessage>, n: int) -> nat
    decreases n,
{
    if n <= 0 {
        0
    } else {
        separators_upto(msgs, n - 1) + if has_separator(msgs, n - 1) {
            1nat
        } else {
            0nat
        }
    }
}

/// An entry of the message list, as plain values.
pub ghost enum ListItemView {
    Message(ChatMessageView),
    TimeSeparator(Seq<char>),
}

/// The message list for the first `n` messages: each message, preceded by
/// a separator showing its `created_at` where `has_separator` holds.
pub open spec fn list_items_upto(msgs: Seq<ChatMessage>, n: int) -> Seq<ListItemView>
    decreases n,
{
    if n <= 0 {
        seq![]
    } else {
        let before = list_items_upto(msgs, n - 1);
        let with_sep = if has_separator(msgs, n - 1) {
            before.push(ListItemView::TimeSeparator(msgs[n - 1].created_at@))
        } else {
            before
        };
        with_sep.push(ListItemView::Message(msgs[n - 1]@))
    }
}

/// An entry of the message list.
#[derive(Debug)]
pub enum ListItem {
    Message(ChatMessage),
    /// A separator showing a time.
    TimeSeparator(String),
}

impl View for ListItem {
    type V = ListItemView;

    open spec fn view(&self) -> ListItemView {
        match self {
            ListItem::Message(m) => ListItemView::Message(m@),
            ListItem::TimeSeparator(t) => ListItemView::TimeSeparator(t@),
        }
    }
}

/// The list has one entry per message plus one per separator.
pub proof fn list_length_law(msgs: Seq<ChatMessage>, n: int)
    requires
        0 <= n <= msgs.len(),
    ensures
        list_items_upto(msgs, n).len() == n + separators_upto(msgs, n),
    decreases n,
{
    if n > 0 {
        list_length_law(msgs, n - 1);
    }
}

proof fn lemma_separators_bound(msgs: Seq<ChatMessage>, n: int)
    requires
        0 <= n,
    ensures
        separators_upto(msgs, n) <= n,
    decreases n,
{
    if n > 0 {
        lemma_separators_bound(msgs, n - 1);
    }
}

fn separator_before(msgs: &[ChatMessage], i: usize) -> (r: bool)
    requires
        i < msgs@.len(),
    ensures
        r == has_separator(msgs@, i as int),
{
    let t = msgs[i].timestamp;
    t > 0 && (i == 0 || (msgs[i - 1].timestamp > 0 && t > msgs[i - 1].timestamp && t
        - msgs[i - 1].timestamp > 300))
}

/// Number of entries of the message list: messages plus time separators.
pub fn count_list_items(msgs: &[ChatMessage]) -> (r: usize)
    requires
        msgs@.len() <= usize::MAX / 2,
    ensures
        r == msgs@.len() + separators_upto(msgs@, msgs@.len() as int),
{
    let mut separators: usize = 0;
    let mut i: usize = 0;
    while i < msgs.len()
        invariant
            0 <= i <= msgs@.len() <= usize::MAX / 2,
            separators == separators_upto(msgs@, i as int),
        decreases msgs.len() - i,
    {
        proof {
            lemma_separators_bound(msgs@, i as int);
        }
        if separator_before(msgs, i) {
            separators = separators + 1;
        }
        i = i + 1;
    }
    proof {
        lemma_separators_bound(msgs@, i as int);
    }
    msgs.len() + separators
}

/// The message list: every message, preceded by a separator with its
/// `created_at` where it begins a new five-minute stretch.
pub fn build_list_items(msgs: &[ChatMessage]) -> (r: Vec<ListItem>)
    ensures
        r@.len() == list_items_upto(msgs@, msgs@.len() as int).len(),
        forall|j: int| 0 <= j < r@.len() ==> (#[trigger] r@[j])@ == list_items_upto(msgs@, msgs@.len() as int)[j],
{
    let mut items: Vec<ListItem> = Vec::new();
    let mut i: usize = 0;
    while i < msgs.len()
        invariant
            0 <= i <= msgs@.len(),
            items@.len() == list_items_upto(msgs@, i as int).len(),
            forall|j: int| 0 <= j < items@.len() ==> (#[trigger] items@[j])@ == list_items_upto(msgs@, i as int)[j],
        decreases msgs.len() - i,
    {
        let ghost before = list_items_upto(msgs@, i as int);
        if separator_before(msgs, i) {
            items.push(ListItem::TimeSeparator(msgs[i].created_at.clone()));
        }
        items.push(ListItem::Message(msgs[i].duplicate()));
        i = i + 1;
    }
    items
}

// ---------------------------------------------------------------------------
// Chat state
// ---------------------------------------------------------------------------

/// How a list is anchored when it is laid out again.
#[derive(Clone, Copy, Debug, PartialEq, Eq, Structural)]
pub enum ListAlign {
    Top,
    Bottom,
}

/// Layout of the message list: number of entries and anchoring.
#[derive(Clone, Copy, Debug, PartialEq, Eq, Structural)]
pub struct ListLayout {
    pub item_count: usize,
    pub alignment: ListAlign,
}

/// A page of messages holds at most this many; a full page means that
/// older messages may exist.
pub const PAGE_SIZE: usize = 30;

/// State of the chat tab.
#[derive(Debug)]
pub struct ChatData {
    pub contacts: Vec<Contact>,
    pub loading: bool,
    pub my_uid: String,
    /// The conversation shown.
    pub selected_uid: Option<String>,
    /// Messages of the conversation shown, oldest first.
    pub messages: Vec<ChatMessage>,
    pub messages_loading: bool,
    /// Id of the oldest message shown, for loading earlier ones.
    pub oldest_mid: Option<String>,
    /// Earlier messages may exist.
    pub has_more: bool,
    /// Text being typed.
    pub draft_text: String,
    /// Layout of the message list, once messages were shown.
    pub msg_list: Option<ListLayout>,
    /// Emoticons (loaded when the panel first opens).
    pub emotions: Vec<Emotion>,
    pub show_emoji_panel: bool,
    /// Filter of the conversation list.
    pub search_text: String,
    /// The group shown, for a group chat.
    pub group_info: Option<GroupInfo>,
}

impl ChatData {
    /// Everything outside the conversation shown is the same: the
    /// conversation list, the user, the draft, the emoticons, the search
    /// and the group.
    pub open spec fn same_outside_conversation(&self, other: &ChatData) -> bool {
        &&& self.contacts == other.contacts
        &&& self.loading == other.loading
        &&& self.my_uid == other.my_uid
        &&& self.draft_text == other.draft_text
        &&& self.emotions == other.emotions
        &&& self.show_emoji_panel == other.show_emoji_panel
        &&& self.search_text == other.search_text
        &&& self.group_info == other.group_info
    }

    /// The conversation shown is the same: selection, messages, paging and
    /// layout.
    pub open spec fn same_conversation(&self, other: &ChatData) -> bool {
        &&& self.selected_uid == other.selected_uid
        &&& self.messages == other.messages
        &&& self.messages_loading == other.messages_loading
        &&& self.oldest_mid == other.oldest_mid
        &&& self.has_more == other.has_more
        &&& self.msg_list == other.msg_list
    }

    /// Everything but the draft and the emoticon panel is the same.
    pub open spec fn same_except_typing(&self, other: &ChatData) -> bool {
        &&& self.same_conversation(other)
        &&& self.contacts == other.contacts
        &&& self.loading == other.loading
        &&& self.my_uid == other.my_uid
        &&& self.emotions == other.emotions
        &&& self.search_text == other.search_text
        &&& self.group_info == other.group_info
    }
}

/// The layout for `msgs`.
pub open spec fn layout_for(msgs: Seq<ChatMessage>, alignment: ListAlign) -> ListLayout {
    ListLayout {
        item_count: (msgs.len() + separators_upto(msgs, msgs.len() as int)) as usize,
        alignment,
    }
}

/// `id` of the first message, if any.
pub open spec fn first_id(msgs: Seq<ChatMessage>) -> Option<Seq<char>> {
    if msgs.len() > 0 {
        Some(msgs[0].id@)
    } else {
        None
    }
}

impl ChatData {
    /// The state before anything was loaded.
    pub fn new() -> (r: ChatData)
        ensures
            r.contacts@.len() == 0,
            r.loading,
            r.my_uid@ == Seq::<char>::empty(),
            r.selected_uid is None,
            r.messages@.len() == 0,
            !r.messages_loading,
            r.oldest_mid is None,
            r.has_more,
            r.draft_text@ == Seq::<char>::empty(),
            r.msg_list is None,
            r.emotions@.len() == 0,
            !r.show_emoji_panel,
            r.search_text@ == Seq::<char>::empty(),
            r.group_info is None,
            is_fresh_chat(r),
    {
        ChatData {
            contacts: Vec::new(),
            loading: true,
            my_uid: String::new(),
            selected_uid: None,
            messages: Vec::new(),
            messages_loading: false,
            oldest_mid: None,
            has_more: true,
            draft_text: String::new(),
            msg_list: None,
            emotions: Vec::new(),
            show_emoji_panel: false,
            search_text: String::new(),
            group_info: None,
        }
    }

    /// Lays the message list out again for the current messages.
    pub fn rebuild_msg_list(&mut self, alignment: ListAlign)
        requires
            old(self).messages@.len() <= usize::MAX / 2,
        ensures
            final(self).msg_list == Some(layout_for(final(self).messages@, alignment)),
            final(self).messages == old(self).messages,
            final(self).selected_uid == old(self).selected_uid,
            final(self).oldest_mid == old(self).oldest_mid,
            final(self).has_more == old(self).has_more,
            final(self).messages_loading == old(self).messages_loading,
            final(self).same_outside_conversation(&*old(self)),
    {
        let n = count_list_items(self.messages.as_slice());
        self.msg_list = Some(ListLayout { item_count: n, alignment });
    }

    /// A conversation was clicked: it is selected and its messages load.
    pub fn begin_select(&mut self, uid: String)
        ensures
            final(self).selected_uid.deep_view() == Some(uid@),
            final(self).messages_loading,
            final(self).messages == old(self).messages,
            final(self).oldest_mid == old(self).oldest_mid,
            final(self).has_more == old(self).has_more,
            final(self).msg_list == old(self).msg_list,
            final(self).same_outside_conversation(&*old(self)),
    {
        self.selected_uid = Some(uid);
        self.messages_loading = true;
    }

    /// The history of conversation `uid` arrived: it replaces the messages
    /// shown, anchored at the bottom.
    pub fn apply_messages(&mut self, uid: String, messages: Vec<ChatMessage>)
        requires
            messages@.len() <= usize::MAX / 2,
        ensures
            final(self).selected_uid.deep_view() == Some(uid@),
            final(self).oldest_mid.deep_view() == first_id(messages@),
            final(self).has_more == (messages@.len() >= PAGE_SIZE),
            final(self).messages@ == messages@,
            !final(self).messages_loading,
            final(self).msg_list == Some(layout_for(messages@, ListAlign::Bottom)),
            final(self).same_outside_conversation(&*old(self)),
    {
        self.selected_uid = Some(uid);
        self.oldest_mid = if messages.len() > 0 {
            Some(messages[0].id.clone())
        } else {
            None
        };
        self.has_more = messages.len() >= PAGE_SIZE;
        self.messages = messages;
        self.messages_loading = false;
        self.rebuild_msg_list(ListAlign::Bottom);
    }

    /// Earlier messages arrived: they go before the messages shown, and the
    /// list stays anchored at the top; none means there are no more.
    pub fn apply_older_messages(&mut self, older: Vec<ChatMessage>)
        requires
            old(self).messages@.len() + older@.len() <= usize::MAX / 2,
        ensures
            !final(self).messages_loading,
            older@.len() > 0 ==> final(self).oldest_mid.deep_view() == first_id(older@)
                && final(self).has_more == (older@.len() >= PAGE_SIZE) && final(self).messages@
                == older@ + old(self).messages@ && final(self).msg_list == Some(
                layout_for(older@ + old(self).messages@, ListAlign::Top),
            ),
            older@.len() == 0 ==> !final(self).has_more && final(self).messages@ == old(
                self,
            ).messages@ && final(self).oldest_mid == old(self).oldest_mid && final(self).msg_list
                == old(self).msg_list,
            final(self).selected_uid == old(self).selected_uid,
            final(self).same_outside_conversation(&*old(self)),
    {
        self.messages_loading = false;
        let count = older.len();
        if count > 0 {
            self.oldest_mid = Some(older[0].id.clone());
            self.has_more = count >= PAGE_SIZE;
            let mut all = older;
            let mut current = Vec::new();
            std::mem::swap(&mut current, &mut self.messages);
            all.append(&mut current);
            self.messages = all;
            self.rebuild_msg_list(ListAlign::Top);
        } else {
            self.has_more = false;
        }
    }

    /// A sent message came back: it is appended and shown at the bottom.
    pub fn apply_sent(&mut self, sent: Option<ChatMessage>)
        requires
            old(self).messages@.len() + 1 <= usize::MAX / 2,
        ensures
            match sent {
                Some(m) => final(self).messages@ == old(self).messages@.push(m)
                    && final(self).msg_list == Some(
                    layout_for(old(self).messages@.push(m), ListAlign::Bottom),
                ),
                None => final(self).messages@ == old(self).messages@ && final(self).msg_list
                    == old(self).msg_list,
            },
            final(self).selected_uid == old(self).selected_uid,
            final(self).messages_loading == old(self).messages_loading,
            final(self).oldest_mid == old(self).oldest_mid,
            final(self).has_more == old(self).has_more,
            final(self).same_outside_conversation(&*old(self)),
    {
        if let Some(m) = sent {
            self.messages.push(m);
            self.rebuild_msg_list(ListAlign::Bottom);
        }
    }

    /// Earlier messages can be loaded: there may be more and the oldest id
    /// is known.
    pub open spec fn can_load_more(&self) -> bool {
        self.has_more && self.oldest_mid is Some
    }

    /// The message list was scrolled so that entry `first_visible` is the
    /// first one shown. At the top, with more to load and no load under
    /// way, a load starts: the id of the oldest message is returned.
    pub fn on_scroll(&mut self, first_visible: usize) -> (r: Option<String>)
        ensures
            (first_visible == 0 && old(self).can_load_more() && !old(self).messages_loading) ==> (
            r.deep_view() == old(self).oldest_mid.deep_view() && final(self).messages_loading),
            !(first_visible == 0 && old(self).can_load_more() && !old(self).messages_loading)
                ==> r is None && final(self).messages_loading == old(self).messages_loading,
            final(self).selected_uid == old(self).selected_uid,
            final(self).messages == old(self).messages,
            final(self).oldest_mid == old(self).oldest_mid,
            final(self).has_more == old(self).has_more,
            final(self).msg_list == old(self).msg_list,
            final(self).same_outside_conversation(&*old(self)),
    {
        if first_visible == 0 && self.has_more && !self.messages_loading {
            match &self.oldest_mid {
                Some(mid) => {
                    let m = mid.clone();
                    self.messages_loading = true;
                    Some(m)
                },
                None => None,
            }
        } else {
            None
        }
    }

    /// The group of the conversation shown arrived.
    pub fn apply_group_info(&mut self, info: GroupInfo)
        ensures
            final(self).group_info == Some(info),
            final(self).same_conversation(&*old(self)),
            final(self).contacts == old(self).contacts,
            final(self).loading == old(self).loading,
            final(self).my_uid == old(self).my_uid,
            final(self).draft_text == old(self).draft_text,
            final(self).emotions == old(self).emotions,
            final(self).show_emoji_panel == old(self).show_emoji_panel,
            final(self).search_text == old(self).search_text,
    {
        self.group_info = Some(info);
    }

    /// The emoticon button was pressed: the panel opens or closes. Returns
    /// whether the emoticons must be loaded (the panel opened and none are
    /// loaded yet).
    pub fn toggle_emoji_panel(&mut self) -> (r: bool)
        ensures
            final(self).show_emoji_panel == !old(self).show_emoji_panel,
            r == (final(self).show_emoji_panel && old(self).emotions@.len() == 0),
            final(self).draft_text == old(self).draft_text,
            final(self).same_except_typing(&*old(self)),
    {
        self.show_emoji_panel = !self.show_emoji_panel;
        self.show_emoji_panel && self.emotions.len() == 0
    }

    /// The emoticons arrived.
    pub fn apply_emotions(&mut self, emotions: Vec<Emotion>)
        ensures
            final(self).emotions@ == emotions@,
            final(self).show_emoji_panel == old(self).show_emoji_panel,
            final(self).draft_text == old(self).draft_text,
            final(self).same_conversation(&*old(self)),
            final(self).contacts == old(self).contacts,
            final(self).loading == old(self).loading,
            final(self).my_uid == old(self).my_uid,
            final(self).search_text == old(self).search_text,
            final(self).group_info == old(self).group_info,
    {
        self.emotions = emotions;
    }

    /// An emoticon was picked: its phrase is typed and the panel closes.
    pub fn pick_emoji(&mut self, phrase: &str)
        ensures
            final(self).draft_text@ == old(self).draft_text@ + phrase@,
            !final(self).show_emoji_panel,
            final(self).same_except_typing(&*old(self)),
    {
        append_str(&mut self.draft_text, phrase);
        self.show_emoji_panel = false;
    }
}


// ---------------------------------------------------------------------------
// Typing
// ---------------------------------------------------------------------------

/// `key` is the Enter key.
pub open spec fn is_enter(key: Seq<char>) -> bool {
    key == "enter"@ || key == "return"@
}

impl ChatData {
    /// The text to send for the draft: the trimmed draft, when it is not
    /// empty; the draft is then cleared.
    pub fn take_draft(&mut self) -> (r: Option<String>)
        ensures
            text::trim(old(self).draft_text@).len() > 0 ==> (r matches Some(t) && t@ == text::trim(
                old(self).draft_text@,
            ) && final(self).draft_text@ == Seq::<char>::empty()),
            text::trim(old(self).draft_text@).len() == 0 ==> r is None && final(self).draft_text@
                == old(self).draft_text@,
            final(self).show_emoji_panel == old(self).show_emoji_panel,
            final(self).same_except_typing(&*old(self)),
    {
        let cs = chars_of(self.draft_text.as_str());
        let t = trimmed(cs.as_slice(), 0, cs.len());
        assert(cs@.subrange(0, cs@.len() as int) =~= cs@);
        if t.as_str().is_empty() {
            None
        } else {
            self.draft_text = String::new();
            Some(t)
        }
    }

    /// A key was pressed in the message box (`key_char` is the text the
    /// key types, empty when none). Shift+Enter types a line break, Enter
    /// sends the trimmed draft when it is not empty, Backspace deletes the
    /// last character, Space types a space, and any other key types its
    /// text. Returns the text to send, if any.
    pub fn on_input_key(&mut self, key: &str, key_char: &str, shift: bool) -> (r: Option<String>)
        ensures
            is_enter(key@) && shift ==> r is None && final(self).draft_text@ == old(
                self,
            ).draft_text@.push('\n'),
            is_enter(key@) && !shift ==> (text::trim(old(self).draft_text@).len() > 0 ==> (r matches Some(t)
                && t@ == text::trim(old(self).draft_text@) && final(self).draft_text@ == Seq::<
                char,
            >::empty())) && (text::trim(old(self).draft_text@).len() == 0 ==> r is None
                && final(self).draft_text@ == old(self).draft_text@),
            !is_enter(key@) && key@ == "backspace"@ ==> r is None && final(self).draft_text@
                == text::drop_last_char(old(self).draft_text@),
            !is_enter(key@) && key@ == "space"@ ==> r is None && final(self).draft_text@ == old(
                self,
            ).draft_text@.push(' '),
            !is_enter(key@) && key@ != "backspace"@ && key@ != "space"@ ==> r is None
                && final(self).draft_text@ == old(self).draft_text@ + key_char@,
            final(self).show_emoji_panel == old(self).show_emoji_panel,
            final(self).same_except_typing(&*old(self)),
    {
        proof {
            reveal_strlit("space");
            reveal_strlit("backspace");
            assert("space"@.len() != "backspace"@.len());
        }
        let enter = text::same_str(key, "enter") || text::same_str(key, "return");
        if enter && shift {
            push_char(&mut self.draft_text, '\n');
            None
        } else if enter {
            self.take_draft()
        } else if text::same_str(key, "backspace") {
            let _ = text::pop_char(&mut self.draft_text);
            None
        } else if text::same_str(key, "space") {
            push_char(&mut self.draft_text, ' ');
            None
        } else {
            append_str(&mut self.draft_text, key_char);
            None
        }
    }

    /// A key was pressed in the search box: Backspace deletes the last
    /// character, any other key types its text.
    pub fn on_search_key(&mut self, key: &str, key_char: &str)
        ensures
            key@ == "backspace"@ ==> final(self).search_text@ == text::drop_last_char(
                old(self).search_text@,
            ),
            key@ != "backspace"@ ==> final(self).search_text@ == old(self).search_text@
                + key_char@,
            final(self).same_conversation(&*old(self)),
            final(self).contacts == old(self).contacts,
            final(self).loading == old(self).loading,
            final(self).my_uid == old(self).my_uid,
            final(self).draft_text == old(self).draft_text,
            final(self).emotions == old(self).emotions,
            final(self).show_emoji_panel == old(self).show_emoji_panel,
            final(self).group_info == old(self).group_info,
    {
        if text::same_str(key, "backspace") {
            let _ = text::pop_char(&mut self.search_text);
        } else {
            append_str(&mut self.search_text, key_char);
        }
    }

    /// The conversation at `i` is shown by the search: the search text is
    /// empty or the conversation's name contains it.
    pub open spec fn shown(&self, i: int) -> bool {
        self.search_text@.len() == 0 || text::contains(self.contacts@[i].screen_name@, self.search_text@)
    }

    /// Positions, in order, of the first `n` conversations that the search shows.
    pub open spec fn shown_upto(&self, n: int) -> Seq<usize>
        decreases n,
    {
        if n <= 0 {
            seq![]
        } else if self.shown(n - 1) {
            self.shown_upto(n - 1).push((n - 1) as usize)
        } else {
            self.shown_upto(n - 1)
        }
    }

    /// Positions of the conversations that the search shows, in order: all
    /// of them when the search text is empty, else those whose name
    /// contains the search text.
    pub fn filtered_contacts(&self) -> (r: Vec<usize>)
        ensures
            r@ == self.shown_upto(self.contacts@.len() as int),
    {
        let mut out: Vec<usize> = Vec::new();
        let all = self.search_text.as_str().is_empty();
        let mut i: usize = 0;
        while i < self.contacts.len()
            invariant
                0 <= i <= self.contacts@.len(),
                all == (self.search_text@.len() == 0),
                out@ == self.shown_upto(i as int),
            decreases self.contacts.len() - i,
        {
            let keep = all || text::str_contains(
                self.contacts[i].screen_name.as_str(),
                self.search_text.as_str(),
            );
            if keep {
                out.push(i);
            }
            i = i + 1;
        }
        out
    }
}


/// Typing a character and then pressing Backspace leaves the draft (or the
/// search text) as it was.
pub proof fn law_type_then_backspace(draft: Seq<char>, c: char)
    ensures
        text::drop_last_char(draft.push(c)) == draft,
{
    assert(draft.push(c).drop_last() =~= draft);
}

/// With an empty search text every conversation is shown, in order.
pub proof fn law_empty_search_shows_all(c: ChatData, n: int)
    requires
        c.search_text@.len() == 0,
        0 <= n <= c.contacts@.len(),
        n <= usize::MAX,
    ensures
        c.shown_upto(n) == Seq::new(n as nat, |i: int| i as usize),
    decreases n,
{
    if n > 0 {
        law_empty_search_shows_all(c, n - 1);
        assert(c.shown_upto(n) =~= Seq::new(n as nat, |i: int| i as usize));
    } else {
        assert(c.shown_upto(n) =~= Seq::new(n as nat, |i: int| i as usize));
    }
}

/// The search keeps the conversations, in order, that it shows.
proof fn lemma_shown_upto_has(c: ChatData, n: int, i: int)
    requires
        0 <= i < n,
        n <= usize::MAX,
    ensures
        c.shown_upto(n).contains(i as usize) <==> c.shown(i),
    decreases n,
{
    let prev = c.shown_upto(n - 1);
    lemma_shown_upto_below(c, n - 1);
    if c.shown(n - 1) {
        assert(c.shown_upto(n) == prev.push((n - 1) as usize));
        assert(c.shown_upto(n)[prev.len() as int] == (n - 1) as usize);
    } else {
        assert(c.shown_upto(n) == prev);
    }
    if n - 1 == i {
        if c.shown(i) {
            assert(c.shown_upto(n).contains(i as usize));
        } else {
            assert(!prev.contains(i as usize));
        }
    } else {
        lemma_shown_upto_has(c, n - 1, i);
        if c.shown_upto(n).contains(i as usize) {
            let k = choose|k: int| 0 <= k < c.shown_upto(n).len() && c.shown_upto(n)[k] == i as usize;
            if k < prev.len() {
                assert(prev[k] == i as usize);
            }
        }
        if prev.contains(i as usize) {
            let k = choose|k: int| 0 <= k < prev.len() && prev[k] == i as usize;
            assert(c.shown_upto(n)[k] == i as usize);
        }
    }
}

proof fn lemma_shown_upto_below(c: ChatData, n: int)
    requires
        0 <= n <= usize::MAX,
    ensures
        forall|k: int| 0 <= k < c.shown_upto(n).len() ==> (#[trigger] c.shown_upto(n)[k]) < n,
    decreases n,
{
    if n > 0 {
        lemma_shown_upto_below(c, n - 1);
        let prev = c.shown_upto(n - 1);
        if c.shown(n - 1) {
            assert(c.shown_upto(n) == prev.push((n - 1) as usize));
            assert forall|k: int| 0 <= k < c.shown_upto(n).len() implies (#[trigger] c.shown_upto(n)[k]) < n by {
                if k < prev.len() {
                    assert(c.shown_upto(n)[k] == prev[k]);
                }
            }
        } else {
            assert(c.shown_upto(n) == prev);
        }
    }
}

/// A search shows a conversation exactly when its name holds the search
/// text somewhere (not only at the start): a name `a + t + b` is shown
/// for the search text `t`, and a shown name, for a non-empty search text,
/// is of that form.
pub proof fn law_search_matches_anywhere(c: ChatData, i: int, a: Seq<char>, b: Seq<char>)
    requires
        0 <= i < c.contacts@.len(),
        c.contacts@.len() <= usize::MAX,
    ensures
        c.contacts@[i].screen_name@ == a + c.search_text@ + b ==> c.shown_upto(c.contacts@.len() as int).contains(
            i as usize,
        ),
        c.search_text@.len() > 0 && c.shown_upto(c.contacts@.len() as int).contains(i as usize) ==> exists|
            k: int,
        |
            0 <= k && k + c.search_text@.len() <= c.contacts@[i].screen_name@.len()
                && #[trigger] c.contacts@[i].screen_name@.subrange(k, k + c.search_text@.len()) == c.search_text@,
{
    lemma_shown_upto_has(c, c.contacts@.len() as int, i);
    let name = c.contacts@[i].screen_name@;
    let t = c.search_text@;
    if name == a + t + b {
        assert(name.subrange(a.len() as int, (a.len() + t.len()) as int) =~= t);
        assert(text::matches_at(name, t, a.len() as int));
    }
}

// ---------------------------------------------------------------------------
// Push messages
// ---------------------------------------------------------------------------

/// Decimal text of an optional number (empty when there is none).
pub open spec fn decimal_or_empty(v: Option<u64>) -> Seq<char> {
    match v {
        Some(n) => text::decimal(n as nat),
        None => seq![],
    }
}

/// A text, or `default` when there is none.
pub open spec fn text_or(s: Option<Seq<char>>, default: Seq<char>) -> Seq<char> {
    match s {
        Some(t) => t,
        None => default,
    }
}

/// Sender id of a push: `from_uid`, else `sender_id`, as a decimal number.
pub open spec fn push_sender_id(d: Json) -> Seq<char> {
    decimal_or_empty(json::u64_of(json::either(json::field(d, "from_uid"@), json::field(d, "sender_id"@))))
}

/// Sender name of a push: `from_user.screen_name`, else `sender_screen_name`, else `?`.
pub open spec fn push_sender_name(d: Json) -> Seq<char> {
    text_or(
        json::str_of(json::either(json::path2(d, "from_user"@, "screen_name"@), json::field(d, "sender_screen_name"@))),
        "?"@,
    )
}

/// Text of a push: `content`, else `text`.
pub open spec fn push_text(d: Json) -> Seq<char> {
    text_or(json::str_of(json::either(json::field(d, "content"@), json::field(d, "text"@))), seq![])
}

/// The conversation of a push: the group id `gid`, else the sender.
pub open spec fn push_conversation(d: Json) -> Seq<char> {
    match json::u64_of(json::field(d, "gid"@)) {
        Some(g) => text::decimal(g as nat),
        None => push_sender_id(d),
    }
}

/// The sender of a push is its `from_uid`, else its `sender_id`, written in
/// decimal; without a group id, the push belongs to that sender's
/// conversation.
pub proof fn law_push_sender(d: Json, now: u64, my_uid: Seq<char>, n: u64)
    requires
        json::u64_of(json::field(d, "from_uid"@)) == Some(n) || (json::field(d, "from_uid"@) is None
            && json::u64_of(json::field(d, "sender_id"@)) == Some(n)),
    ensures
        push_message(d, now, my_uid).sender_id == text::decimal(n as nat),
        push_message(d, now, my_uid).is_self == (text::decimal(n as nat) == my_uid),
        json::field(d, "gid"@) is None ==> push_conversation(d) == text::decimal(n as nat),
{
}

/// The text of a push is its `content`, else its `text`; a push with text
/// of its own is handled as a message with that text, at the time it
/// arrived.
pub proof fn law_push_text(d: Json, now: u64, my_uid: Seq<char>, t: Seq<char>)
    requires
        json::str_of(json::field(d, "content"@)) == Some(t) || (json::field(d, "content"@) is None && json::str_of(
            json::field(d, "text"@),
        ) == Some(t)),
    ensures
        push_text(d) == t,
        push_message(d, now, my_uid).text == t,
        push_message(d, now, my_uid).timestamp == now,
{
}

/// The decimal texts of the numbers among `items`, in order.
pub open spec fn number_texts(items: Seq<Json>) -> Seq<Seq<char>>
    decreases items.len(),
{
    if items.len() == 0 {
        seq![]
    } else {
        let before = number_texts(items.drop_last());
        match json::u64_of(Some(items.last())) {
            Some(n) => before.push(text::decimal(n as nat)),
            None => before,
        }
    }
}

/// Image file ids of a push.
pub open spec fn push_fids(d: Json) -> Seq<Seq<char>> {
    match json::array_of(json::field(d, "fids"@)) {
        Some(a) => number_texts(a),
        None => seq![],
    }
}

/// The message that a push adds to a conversation.
pub open spec fn push_message(d: Json, now: u64, my_uid: Seq<char>) -> ChatMessageView {
    ChatMessageView {
        id: seq![],
        sender_id: push_sender_id(d),
        sender_name: push_sender_name(d),
        sender_avatar: text_or(json::str_of(json::path2(d, "from_user"@, "profile_image_url"@)), seq![]),
        text: push_text(d),
        created_at: seq![],
        timestamp: now,
        is_self: push_sender_id(d) == my_uid,
        msg_type: msg_type_of(
            match json::u64_of(json::field(d, "type"@)) {
                Some(v) => v,
                None => 321,
            },
        ),
        media_type: media_type_of(
            match json::u64_of(json::field(d, "media_type"@)) {
                Some(v) => v,
                None => 0,
            },
        ),
        fids: push_fids(d),
        role: (match json::u64_of(json::field(d, "from_user_role"@)) {
            Some(v) => v,
            None => 0,
        }) as u8,
    }
}

/// Index of the first conversation with the id `uid`, or -1.
pub open spec fn contact_index(cs: Seq<Contact>, uid: Seq<char>) -> int
    decreases cs.len(),
{
    if cs.len() == 0 {
        -1
    } else if cs[0].user_id@ == uid {
        0
    } else {
        let r = contact_index(cs.drop_first(), uid);
        if r < 0 {
            -1
        } else {
            r + 1
        }
    }
}

proof fn lemma_contact_index(cs: Seq<Contact>, uid: Seq<char>, i: int)
    requires
        0 <= i <= cs.len(),
        forall|j: int| 0 <= j < i ==> cs[j].user_id@ != uid,
        i == cs.len() || cs[i].user_id@ == uid,
    ensures
        contact_index(cs, uid) == if i < cs.len() {
            i
        } else {
            -1
        },
    decreases cs.len(),
{
    if cs.len() > 0 && cs[0].user_id@ != uid {
        lemma_contact_index(cs.drop_first(), uid, i - 1);
    }
}

fn decimal_of(v: Option<u64>) -> (r: String)
    ensures
        r@ == decimal_or_empty(v),
{
    match v {
        Some(n) => u64_to_decimal(n),
        None => String::new(),
    }
}

fn fid_texts(d: &Json) -> (r: Vec<String>)
    ensures
        r.deep_view() == push_fids(*d),
{
    let f = d.get("fids");
    match f {
        Some(v) => match v.as_array() {
            Some(a) => {
                let mut out: Vec<String> = Vec::new();
                let mut i: usize = 0;
                assert(a@.take(0) =~= Seq::<Json>::empty());
                while i < a.len()
                    invariant
                        0 <= i <= a@.len(),
                        out.deep_view() == number_texts(a@.take(i as int)),
                    decreases a.len() - i,
                {
                    proof {
                        assert(a@.take(i + 1).drop_last() =~= a@.take(i as int));
                    }
                    match a[i].as_u64() {
                        Some(n) => {
                            let t = u64_to_decimal(n);
                            let ghost before = out.deep_view();
                            out.push(t);
                            assert(out.deep_view() =~= before.push(text::decimal(n as nat)));
                        },
                        None => {},
                    }
                    i = i + 1;
                }
                assert(a@.take(i as int) =~= a@);
                out
            },
            None => Vec::new(),
        },
        None => Vec::new(),
    }
}

/// The message of a push, received at `now`.
fn message_of_push(d: &Json, now: u64, my_uid: &String) -> (r: ChatMessage)
    ensures
        r@ == push_message(*d, now, my_uid@),
{
    proof {
        reveal_strlit("?");
        reveal_strlit("");
    }
    let sender_id = decimal_of(json::u64_opt(json::get_either(d, "from_uid", "sender_id")));
    let sender_name = json::text_or(
        json::str_opt(json::get_either_path(d, "from_user", "screen_name", "sender_screen_name")),
        "?",
    );
    let sender_avatar = json::text_or(json::str_opt(json::get_path(d, "from_user", "profile_image_url")), "");
    let text = json::text_or(json::str_opt(json::get_either(d, "content", "text")), "");
    let is_self = sender_id == *my_uid;
    let type_val = match json::u64_opt(d.get("type")) {
        Some(v) => v,
        None => 321,
    };
    let media_val = match json::u64_opt(d.get("media_type")) {
        Some(v) => v,
        None => 0,
    };
    let role_val = match json::u64_opt(d.get("from_user_role")) {
        Some(v) => v,
        None => 0,
    };
    let r = ChatMessage {
        id: String::new(),
        sender_id,
        sender_name,
        sender_avatar,
        text,
        created_at: String::new(),
        timestamp: now,
        is_self,
        msg_type: MsgType::from_api(type_val),
        media_type: MediaType::from_api(media_val),
        fids: fid_texts(d),
        role: role_val as u8,
    };
    assert(r@.id =~= Seq::<char>::empty());
    assert(r@.created_at =~= Seq::<char>::empty());
    assert(r@.sender_id == push_sender_id(*d));
    assert(r@.sender_name == push_sender_name(*d));
    assert(r@.text == push_text(*d));
    assert(r@.fids == push_fids(*d));
    assert(r@.is_self == (push_sender_id(*d) == my_uid@));
    assert(r@.sender_avatar == push_message(*d, now, my_uid@).sender_avatar);
    assert(r@.msg_type == push_message(*d, now, my_uid@).msg_type);
    assert(r@.media_type == push_message(*d, now, my_uid@).media_type);
    assert(role_val == (match json::u64_of(json::field(*d, "from_user_role"@)) { Some(v) => v, None => 0 }));
    assert(r@.role == push_message(*d, now, my_uid@).role);
    r
}

/// The chat state that `ChatData::new` makes: no conversations or
/// messages, loading, no user, nothing selected or typed.
pub open spec fn is_fresh_chat(c: ChatData) -> bool {
    &&& c.contacts@.len() == 0
    &&& c.loading
    &&& c.my_uid@ == Seq::<char>::empty()
    &&& c.selected_uid is None
    &&& c.messages@.len() == 0
    &&& !c.messages_loading
    &&& c.oldest_mid is None
    &&& c.has_more
    &&& c.draft_text@ == Seq::<char>::empty()
    &&& c.msg_list is None
    &&& c.emotions@.len() == 0
    &&& !c.show_emoji_panel
    &&& c.search_text@ == Seq::<char>::empty()
    &&& c.group_info is None
}

/// `after` is `before` with the push received at `now` handled, and `r`
/// tells whether to play the notification sound (see `apply_push`).
pub open spec fn push_applied(before: ChatData, after: ChatData, push: WsMessage, now: u64, r: bool) -> bool {
    &&& push_text(push.data).len() == 0 ==> !r && after.messages@ == before.messages@
        && after.contacts@ == before.contacts@ && after.msg_list == before.msg_list
    &&& push_text(push.data).len() > 0 ==> {
        let m = push_message(push.data, now, before.my_uid@);
        let conv = push_conversation(push.data);
        let ci = contact_index(before.contacts@, conv);
        &&& r == !m.is_self
        &&& if before.selected_uid.deep_view() == Some(conv) {
            &&& after.messages@.len() == before.messages@.len() + 1
            &&& after.messages@.drop_last() == before.messages@
            &&& after.messages@.last()@ == m
            &&& after.msg_list == Some(layout_for(after.messages@,
                match before.msg_list { Some(l) => l.alignment, None => ListAlign::Bottom }))
        } else {
            after.messages@ == before.messages@ && after.msg_list == before.msg_list
        }
        &&& after.contacts@.len() == before.contacts@.len()
        &&& forall|j: int| 0 <= j < before.contacts@.len() && j != ci ==> #[trigger] after.contacts@[j] == before.contacts@[j]
        &&& ci >= 0 ==> {
            let c0 = before.contacts@[ci];
            let c1 = after.contacts@[ci];
            &&& c1.user_id == c0.user_id
            &&& c1.screen_name == c0.screen_name
            &&& c1.avatar == c0.avatar
            &&& c1.last_time == c0.last_time
            &&& c1.is_group == c0.is_group
            &&& c1.last_message@ == text::prefix_chars(push_text(push.data), 50)
            &&& c1.unread_count == if m.is_self { c0.unread_count } else { (c0.unread_count + 1) as u64 }
        }
    }
    &&& after.my_uid == before.my_uid
    &&& after.selected_uid == before.selected_uid
    &&& after.messages_loading == before.messages_loading
    &&& after.oldest_mid == before.oldest_mid
    &&& after.has_more == before.has_more
    &&& after.loading == before.loading
    &&& after.draft_text == before.draft_text
    &&& after.emotions == before.emotions
    &&& after.show_emoji_panel == before.show_emoji_panel
    &&& after.search_text == before.search_text
    &&& after.group_info == before.group_info
}

impl ChatData {
    /// Handles a push received at `now`. A push without text changes
    /// nothing. Otherwise its message is appended when its conversation is
    /// the one shown; the conversation's preview becomes the first 50
    /// characters of the text, and its unread count grows by one unless the
    /// message is the user's own. Returns whether to play the notification
    /// sound (the message is not the user's own).
    pub fn apply_push(&mut self, push: WsMessage, now: u64) -> (r: bool)
        requires
            old(self).messages@.len() + 1 <= usize::MAX / 2,
            forall|i: int| 0 <= i < old(self).contacts@.len() ==> (#[trigger] old(self).contacts@[i]).unread_count < u64::MAX,
        ensures
            push_text(push.data).len() == 0 ==> !r && final(self).messages@ == old(self).messages@
                && final(self).contacts@ == old(self).contacts@ && final(self).msg_list == old(self).msg_list,
            push_text(push.data).len() > 0 ==> {
                let m = push_message(push.data, now, old(self).my_uid@);
                let conv = push_conversation(push.data);
                let ci = contact_index(old(self).contacts@, conv);
                &&& r == !m.is_self
                &&& if old(self).selected_uid.deep_view() == Some(conv) {
                    &&& final(self).messages@.len() == old(self).messages@.len() + 1
                    &&& final(self).messages@.drop_last() == old(self).messages@
                    &&& final(self).messages@.last()@ == m
                    &&& final(self).msg_list == Some(layout_for(final(self).messages@,
                        match old(self).msg_list { Some(l) => l.alignment, None => ListAlign::Bottom }))
                } else {
                    final(self).messages@ == old(self).messages@ && final(self).msg_list == old(self).msg_list
                }
                &&& final(self).contacts@.len() == old(self).contacts@.len()
                &&& forall|j: int| 0 <= j < old(self).contacts@.len() && j != ci ==> #[trigger] final(self).contacts@[j] == old(self).contacts@[j]
                &&& ci >= 0 ==> {
                    let c0 = old(self).contacts@[ci];
                    let c1 = final(self).contacts@[ci];
                    &&& c1.user_id == c0.user_id
                    &&& c1.screen_name == c0.screen_name
                    &&& c1.avatar == c0.avatar
                    &&& c1.last_time == c0.last_time
                    &&& c1.is_group == c0.is_group
                    &&& c1.last_message@ == text::prefix_chars(push_text(push.data), 50)
                    &&& c1.unread_count == if m.is_self { c0.unread_count } else { (c0.unread_count + 1) as u64 }
                }
            },
            final(self).my_uid == old(self).my_uid,
            final(self).selected_uid == old(self).selected_uid,
            final(self).messages_loading == old(self).messages_loading,
            final(self).oldest_mid == old(self).oldest_mid,
            final(self).has_more == old(self).has_more,
            final(self).loading == old(self).loading,
            final(self).draft_text == old(self).draft_text,
            final(self).emotions == old(self).emotions,
            final(self).show_emoji_panel == old(self).show_emoji_panel,
            final(self).search_text == old(self).search_text,
            final(self).group_info == old(self).group_info,
    {
        let msg = message_of_push(&push.data, now, &self.my_uid);
        let conv = match json::u64_opt(push.data.get("gid")) {
            Some(g) => u64_to_decimal(g),
            None => msg.sender_id.clone(),
        };
        if msg.text.as_str().is_empty() {
            return false;
        }
        let is_self = msg.is_self;
        let preview = text::first_chars(msg.text.as_str(), 50);
        let selected = match &self.selected_uid {
            Some(u) => *u == conv,
            None => false,
        };
        if selected {
            let align = match self.msg_list {
                Some(l) => l.alignment,
                None => ListAlign::Bottom,
            };
            self.messages.push(msg);
            self.rebuild_msg_list(align);
        }
        let mut i: usize = 0;
        while i < self.contacts.len() && self.contacts[i].user_id != conv
            invariant
                0 <= i <= self.contacts@.len(),
                forall|j: int| 0 <= j < i ==> self.contacts@[j].user_id@ != conv@,
            decreases self.contacts.len() - i,
        {
            i = i + 1;
        }
        proof {
            lemma_contact_index(self.contacts@, conv@, i as int);
        }
        if i < self.contacts.len() {
            let c = self.contacts.remove(i);
            let unread = if is_self {
                c.unread_count
            } else {
                c.unread_count + 1
            };
            let updated = Contact {
                user_id: c.user_id,
                screen_name: c.screen_name,
                avatar: c.avatar,
                unread_count: unread,
                last_message: preview,
                last_time: c.last_time,
                is_group: c.is_group,
            };
            self.contacts.insert(i, updated);
        }
        !is_self
    }
}

} // verus!

//! Domain model: plain data types shared by every layer.

use vstd::prelude::*;

use crate::text::append_str;

verus! {

broadcast use vstd::string::group_string_axioms;

/// The tab that is shown in the main window.
#[derive(Clone, Copy, Debug, PartialEq, Eq, Structural)]
pub enum ActiveTab {
    Home,
    Chat,
}

/// Kind of a chat message, from the `type` field of the IM API.
#[derive(Clone, Copy, Debug, PartialEq, Eq, Structural)]
pub enum MsgType {
    /// An ordinary message (`type` 321).
    Normal,
    /// A system notice, such as someone joining a group (`type` 322).
    System,
    /// A recalled message (`type` 344).
    Recall,
    /// Any other value of the field.
    Other(u64),
}

/// The meaning of an API `type` value.
pub open spec fn msg_type_of(v: u64) -> MsgType {
    if v == 321 {
        MsgType::Normal
    } else if v == 322 {
        MsgType::System
    } else if v == 344 {
        MsgType::Recall
    } else {
        MsgType::Other(v)
    }
}

impl MsgType {
    /// Maps the API's numeric `type` field to a message kind.
    pub fn from_api(type_val: u64) -> (r: MsgType)
        ensures
            r == msg_type_of(type_val),
    {
        match type_val {
            321 => MsgType::Normal,
            322 => MsgType::System,
            344 => MsgType::Recall,
            v => MsgType::Other(v),
        }
    }
}


/// Kind of media in a chat message, from the `media_type` field.
#[derive(Clone, Copy, Debug, PartialEq, Eq, Structural)]
pub enum MediaType {
    /// Plain text (`media_type` 0).
    Text,
    /// An image (`media_type` 1, with file ids).
    Image,
    /// A quotation of another message (`media_type` 14).
    Quote,
    /// Any other value of the field.
    Other(u64),
}

/// The meaning of an API `media_type` value.
pub open spec fn media_type_of(v: u64) -> MediaType {
    if v == 0 {
        MediaType::Text
    } else if v == 1 {
        MediaType::Image
    } else if v == 14 {
        MediaType::Quote
    } else {
        MediaType::Other(v)
    }
}

impl MediaType {
    /// Maps the API's numeric `media_type` field to a media kind.
    pub fn from_api(val: u64) -> (r: MediaType)
        ensures
            r == media_type_of(val),
    {
        match val {
            0 => MediaType::Text,
            1 => MediaType::Image,
            14 => MediaType::Quote,
            v => MediaType::Other(v),
        }
    }
}

/// A conversation in the direct-message list.
#[derive(Clone, Debug)]
pub struct Contact {
    pub user_id: String,
    pub screen_name: String,
    pub avatar: String,
    pub unread_count: u64,
    pub last_message: String,
    pub last_time: String,
    pub is_group: bool,
}

/// A chat message.
#[derive(Clone, Debug)]
pub struct ChatMessage {
    pub id: String,
    pub sender_id: String,
    pub sender_name: String,
    /// Avatar URL of the sender.
    pub sender_avatar: String,
    pub text: String,
    pub created_at: String,
    /// Unix time in seconds (0 when unknown).
    pub timestamp: u64,
    pub is_self: bool,
    pub msg_type: MsgType,
    pub media_type: MediaType,
    /// File ids of the images of an image message.
    pub fids: Vec<String>,
    /// Role of the sender in a group: 0 member, 1 administrator, 4 owner.
    pub role: u8,
}

/// A chat message as plain values.
pub ghost struct ChatMessageView {
    pub id: Seq<char>,
    pub sender_id: Seq<char>,
    pub sender_name: Seq<char>,
    pub sender_avatar: Seq<char>,
    pub text: Seq<char>,
    pub created_at: Seq<char>,
    pub timestamp: u64,
    pub is_self: bool,
    pub msg_type: MsgType,
    pub media_type: MediaType,
    pub fids: Seq<Seq<char>>,
    pub role: u8,
}

impl View for ChatMessage {
    type V = ChatMessageView;

    open spec fn view(&self) -> ChatMessageView {
        ChatMessageView {
            id: self.id@,
            sender_id: self.sender_id@,
            sender_name: self.sender_name@,
            sender_avatar: self.sender_avatar@,
            text: self.text@,
            created_at: self.created_at@,
            timestamp: self.timestamp,
            is_self: self.is_self,
            msg_type: self.msg_type,
            media_type: self.media_type,
            fids: self.fids.deep_view(),
            role: self.role,
        }
    }
}

/// A copy of a list of strings.
pub fn copy_strings(v: &Vec<String>) -> (r: Vec<String>)
    ensures
        r.deep_view() == v.deep_view(),
{
    let mut out: Vec<String> = Vec::new();
    let mut i: usize = 0;
    while i < v.len()
        invariant
            0 <= i <= v@.len(),
            out@.len() == i,
            forall|j: int| 0 <= j < i ==> (#[trigger] out@[j])@ == v@[j]@,
        decreases v.len() - i,
    {
        out.push(v[i].clone());
        i = i + 1;
    }
    assert(out.deep_view() =~= v.deep_view());
    out
}

impl ChatMessage {
    /// A copy of this message.
    pub fn duplicate(&self) -> (r: ChatMessage)
        ensures
            r@ == self@,
    {
        ChatMessage {
            id: self.id.clone(),
            sender_id: self.sender_id.clone(),
            sender_name: self.sender_name.clone(),
            sender_avatar: self.sender_avatar.clone(),
            text: self.text.clone(),
            created_at: self.created_at.clone(),
            timestamp: self.timestamp,
            is_self: self.is_self,
            msg_type: self.msg_type,
            media_type: self.media_type,
            fids: copy_strings(&self.fids),
            role: self.role,
        }
    }
}

/// A Weibo emoticon.
#[derive(Clone, Debug)]
pub struct Emotion {
    /// Text marker of the emoticon, such as `[doge]`.
    pub phrase: String,
    /// Image URL.
    pub url: String,
}

/// A group chat.
#[derive(Clone, Debug)]
pub struct GroupInfo {
    pub id: String,
    pub name: String,
    pub owner_uid: String,
    pub member_count: u64,
    pub members: Vec<GroupMember>,
}

/// A member of a group chat.
#[derive(Clone, Debug)]
pub struct GroupMember {
    pub uid: String,
    pub screen_name: String,
    pub avatar: String,
    pub is_admin: bool,
}

/// A timeline entry: a post, or a hot-search entry.
#[derive(Clone, Debug)]
pub struct TimelineItem {
    pub user_name: String,
    pub text: String,
}

/// Phases of the login flow; they decide what the window shows.
#[derive(Clone, Debug)]
pub enum LoginPhase {
    /// Checking the saved cookies at start-up.
    CheckingCookie,
    /// Waiting, with a status message.
    Loading(String),
    /// A QR code is shown and waits to be scanned.
    WaitingScan {
        status: String,
        /// PNG bytes of the QR code.
        qr_png_bytes: Option<Vec<u8>>,
    },
    /// The login was confirmed; the ticket is being exchanged.
    Exchanging(String),
    /// The home timeline is being fetched.
    FetchingHome,
    /// The home timeline is shown.
    HomeLoaded { items: Vec<TimelineItem>, title: String },
    /// An error message.
    Error(String),
}

/// The short name of a phase, for the log.
pub open spec fn phase_name(p: LoginPhase) -> &'static str {
    match p {
        LoginPhase::CheckingCookie => "CheckingCookie",
        LoginPhase::Loading(_) => "Loading",
        LoginPhase::WaitingScan { .. } => "WaitingScan",
        LoginPhase::Exchanging(_) => "Exchanging",
        LoginPhase::FetchingHome => "FetchingHome",
        LoginPhase::HomeLoaded { .. } => "HomeLoaded",
        LoginPhase::Error(_) => "Error",
    }
}

impl LoginPhase {
    /// Short name of the phase, for the log.
    pub fn name(&self) -> (r: &'static str)
        ensures
            r == phase_name(*self),
    {
        match self {
            LoginPhase::CheckingCookie => "CheckingCookie",
            LoginPhase::Loading(_) => "Loading",
            LoginPhase::WaitingScan { .. } => "WaitingScan",
            LoginPhase::Exchanging(_) => "Exchanging",
            LoginPhase::FetchingHome => "FetchingHome",
            LoginPhase::HomeLoaded { .. } => "HomeLoaded",
            LoginPhase::Error(_) => "Error",
        }
    }
}

/// The cookies that authenticate requests.
#[derive(Clone, Debug)]
pub struct CookieData {
    /// The `Cookie` header: `SUB=…; SUBP=…`.
    pub header: String,
    /// The value of `SUB`.
    pub sub: String,
}

/// The application's error kinds.
#[derive(Debug)]
pub enum AppError {
    Network(String),
    Auth(String),
    Parse(String),
    Io(String),
}

impl AppError {
    /// The message that describes this error.
    pub fn message(&self) -> (r: String)
        ensures
            r@ == match self {
                AppError::Network(m) => "网络错误: "@ + m@,
                AppError::Auth(m) => "认证错误: "@ + m@,
                AppError::Parse(m) => "解析错误: "@ + m@,
                AppError::Io(m) => "IO错误: "@ + m@,
            },
    {
        let (prefix, m) = match self {
            AppError::Network(m) => ("网络错误: ", m),
            AppError::Auth(m) => ("认证错误: ", m),
            AppError::Parse(m) => ("解析错误: ", m),
            AppError::Io(m) => ("IO错误: ", m),
        };
        let mut s = prefix.to_string();
        append_str(&mut s, m.as_str());
        s
    }
}


impl View for TimelineItem {
    type V = (Seq<char>, Seq<char>);

    open spec fn view(&self) -> (Seq<char>, Seq<char>) {
        (self.user_name@, self.text@)
    }
}

/// The views of timeline items.
pub open spec fn items_view(items: Seq<TimelineItem>) -> Seq<(Seq<char>, Seq<char>)> {
    Seq::new(items.len(), |i: int| items[i]@)
}

/// A login phase as plain values.
pub ghost enum PhaseView {
    CheckingCookie,
    Loading(Seq<char>),
    WaitingScan { status: Seq<char>, qr_png_bytes: Option<Seq<u8>> },
    Exchanging(Seq<char>),
    FetchingHome,
    HomeLoaded { items: Seq<(Seq<char>, Seq<char>)>, title: Seq<char> },
    Error(Seq<char>),
}

impl View for LoginPhase {
    type V = PhaseView;

    open spec fn view(&self) -> PhaseView {
        match self {
            LoginPhase::CheckingCookie => PhaseView::CheckingCookie,
            LoginPhase::Loading(m) => PhaseView::Loading(m@),
            LoginPhase::WaitingScan { status, qr_png_bytes } => PhaseView::WaitingScan {
                status: status@,
                qr_png_bytes: match qr_png_bytes {
                    Some(b) => Some(b@),
                    None => None,
                },
            },
            LoginPhase::Exchanging(m) => PhaseView::Exchanging(m@),
            LoginPhase::FetchingHome => PhaseView::FetchingHome,
            LoginPhase::HomeLoaded { items, title } => PhaseView::HomeLoaded {
                items: items_view(items@),
                title: title@,
            },
            LoginPhase::Error(m) => PhaseView::Error(m@),
        }
    }
}
} // verus!

//! The application state and the login flows: what each step of the QR
//! login and of the saved-cookie check shows, and what the application
//! does next.

use vstd::prelude::*;

use crate::chat::{self, ChatData};
use crate::ws::WsMessage;
use crate::domain::{ActiveTab, Contact, LoginPhase, PhaseView, TimelineItem, items_view};
use crate::qr::{QrStatus, QrStatusView};
use crate::text;
use crate::text::{append_str, u64_to_decimal};

verus! {

broadcast use vstd::string::group_string_axioms;

/// State of the main window.
#[derive(Debug)]
pub struct AppState {
    pub phase: LoginPhase,
    /// Id of the last post shown, for loading more (empty when unknown).
    pub since_id: String,
    /// More posts are being loaded.
    pub loading_more: bool,
    /// The feed list of the timeline, once known.
    pub feed_list_id: Option<String>,
    pub active_tab: ActiveTab,
    /// Unread direct messages.
    pub dm_unread: u64,
    /// The unread count was requested.
    pub dm_fetched: bool,
    /// The push connection was started.
    pub ws_started: bool,
    /// State of the chat tab, once it was opened or a push arrived.
    pub chat_data: Option<ChatData>,
}

/// How the application starts.
#[derive(Debug)]
pub enum StartAction {
    /// Check the saved cookie, then show the timeline.
    CheckCookie(String),
    /// Log in with a QR code.
    QrLogin,
}

/// What happened in the QR login flow.
#[derive(Debug)]
pub enum LoginEvent {
    /// A QR code is ready (PNG bytes).
    QrReady(Vec<u8>),
    /// No QR code could be prepared (the error text).
    QrFailed(String),
    /// The QR code was polled.
    Polled(QrStatus),
    /// Polling failed.
    PollFailed(String),
    /// The ticket was exchanged for this cookie.
    TicketExchanged(String),
    /// The ticket exchange failed.
    TicketFailed(String),
    /// A new QR code replaced an expired one.
    QrRefreshed(Vec<u8>),
    /// The QR code could not be renewed.
    QrRefreshFailed(String),
    /// The home content was fetched: items and title.
    HomeFetched(Vec<TimelineItem>, String),
}

/// What the QR login flow does next.
#[derive(Debug, PartialEq, Eq)]
pub enum LoginAction {
    /// Poll the QR code now.
    Poll,
    /// Poll the QR code again after a second.
    PollAfterDelay,
    /// Exchange the ticket.
    ExchangeTicket { alt: String, redirect_url: String },
    /// Renew the expired QR code.
    RefreshQr,
    /// Fetch the home content with the cookie.
    FetchHome(String),
    /// The flow is over.
    Finish,
}

/// What happened in the saved-cookie flow.
#[derive(Debug)]
pub enum CookieEvent {
    /// The cookie was checked: valid or not, or the check failed (`None`).
    Checked(Option<bool>),
    /// The home content was fetched: items and title.
    HomeFetched(Vec<TimelineItem>, String),
}

/// What the saved-cookie flow does next.
#[derive(Debug, PartialEq, Eq)]
pub enum CookieAction {
    /// The cookie is not valid: log in with a QR code.
    QrLogin,
    /// Fetch the home content.
    FetchHome,
    /// The flow is over.
    Finish,
}

/// Work to start after a frame was drawn.
#[derive(Debug, PartialEq, Eq)]
pub struct RenderActions {
    /// Fetch the unread count of direct messages.
    pub fetch_dm: bool,
    /// Open the push connection for this user.
    pub start_ws: Option<String>,
}

/// The status shown with a fresh QR code.
pub open spec fn scan_prompt() -> Seq<char> {
    "📱 请用微博手机客户端扫描二维码"@
}

/// The title of the home timeline with `n` posts.
pub open spec fn timeline_title(n: nat) -> Seq<char> {
    "📰 首页时间线 ("@ + text::decimal(n) + "条)"@
}

/// `prefix` followed by `s`.
fn prefixed(prefix: &str, s: &str) -> (r: String)
    ensures
        r@ == prefix@ + s@,
{
    let mut out = prefix.to_string();
    append_str(&mut out, s);
    out
}

/// The title of the home timeline with `n` posts.
pub fn format_timeline_title(n: usize) -> (r: String)
    ensures
        r@ == timeline_title(n as nat),
{
    let mut out = "📰 首页时间线 (".to_string();
    let d = u64_to_decimal(n as u64);
    append_str(&mut out, d.as_str());
    append_str(&mut out, "条)");
    out
}

fn home_loaded(items: Vec<TimelineItem>, title: String) -> (r: LoginPhase)
    ensures
        r@ == (PhaseView::HomeLoaded { items: items_view(items@), title: title@ }),
{
    LoginPhase::HomeLoaded { items, title }
}

/// A once-only flag of `on_render` (the unread count was requested, the
/// push connection was started), from `set`, after renders in which the
/// timeline was shown (`true`) or not, in order: it is set by the first
/// render that shows the timeline.
pub open spec fn flag_after_renders(set: bool, shown: Seq<bool>) -> bool
    decreases shown.len(),
{
    if shown.len() == 0 {
        set
    } else {
        flag_after_renders(set, shown.drop_last()) || shown.last()
    }
}

/// How many of those renders act on the flag: fetch the unread count, or
/// start the push connection (which also needs the user's id). A render
/// acts when it shows the timeline and the flag is not yet set.
pub open spec fn renders_acting(set: bool, shown: Seq<bool>) -> nat
    decreases shown.len(),
{
    if shown.len() == 0 {
        0
    } else {
        renders_acting(set, shown.drop_last()) + if shown.last() && !flag_after_renders(set, shown.drop_last()) {
            1nat
        } else {
            0nat
        }
    }
}

/// Over any sequence of renders, the unread count is fetched at most once
/// and the push connection is started at most once: once when some render
/// shows the timeline and the flag was not set before, else never.
pub proof fn law_render_acts_once(set: bool, shown: Seq<bool>)
    ensures
        renders_acting(set, shown) == if !set && flag_after_renders(set, shown) {
            1nat
        } else {
            0nat
        },
        renders_acting(set, shown) <= 1,
    decreases shown.len(),
{
    if shown.len() > 0 {
        let before = shown.drop_last();
        law_render_acts_once(set, before);
        assert(flag_after_renders(set, shown) == (flag_after_renders(set, before) || shown.last()));
        assert(!set ==> !flag_after_renders(set, before) ==> renders_acting(set, before) == 0);
        assert(set ==> flag_after_renders(set, before)) by {
            lemma_flag_stays_set(set, before);
        }
    }
}

proof fn lemma_flag_stays_set(set: bool, shown: Seq<bool>)
    ensures
        set ==> flag_after_renders(set, shown),
    decreases shown.len(),
{
    if shown.len() > 0 {
        lemma_flag_stays_set(set, shown.drop_last());
    }
}

impl AppState {
    /// Everything but the phase and the chat state is the same: the
    /// timeline paging, the tab and the unread count with its flags.
    pub open spec fn same_status(&self, other: &AppState) -> bool {
        &&& self.since_id == other.since_id
        &&& self.loading_more == other.loading_more
        &&& self.feed_list_id == other.feed_list_id
        &&& self.active_tab == other.active_tab
        &&& self.dm_unread == other.dm_unread
        &&& self.dm_fetched == other.dm_fetched
        &&& self.ws_started == other.ws_started
    }
}

impl AppState {
    /// The state at start-up, and how to proceed: check the saved cookie
    /// when there is one, else log in with a QR code.
    pub fn new(saved_cookie: Option<String>) -> (r: (AppState, StartAction))
        ensures
            r.0.phase@ == PhaseView::CheckingCookie,
            r.0.active_tab == ActiveTab::Home,
            r.0.since_id@ == Seq::<char>::empty(),
            !r.0.loading_more,
            r.0.feed_list_id is None,
            r.0.dm_unread == 0,
            !r.0.dm_fetched,
            !r.0.ws_started,
            r.0.chat_data is None,
            match saved_cookie {
                Some(c) => r.1 matches StartAction::CheckCookie(rc) && rc@ == c@,
                None => r.1 matches StartAction::QrLogin,
            },
    {
        let state = AppState {
            phase: LoginPhase::CheckingCookie,
            since_id: String::new(),
            loading_more: false,
            feed_list_id: None,
            active_tab: ActiveTab::Home,
            dm_unread: 0,
            dm_fetched: false,
            ws_started: false,
            chat_data: None,
        };
        let action = match saved_cookie {
            Some(c) => StartAction::CheckCookie(c),
            None => StartAction::QrLogin,
        };
        (state, action)
    }

    /// One step of the QR login flow.
    ///
    /// A ready QR code is shown and polled; an unscanned code asks to wait
    /// and a scanned one to confirm; a confirmation starts the ticket
    /// exchange, whose cookie fetches the home content, shown at the end;
    /// an expired code is renewed and shown again; a failure to prepare a
    /// code or to exchange the ticket ends the flow with an error; any
    /// other poll result, or a failed poll or renewal, polls again.
    pub fn login_step(&mut self, event: LoginEvent) -> (r: LoginAction)
        ensures
            match event {
                LoginEvent::QrReady(png) => final(self).phase@ == (PhaseView::WaitingScan {
                    status: scan_prompt(),
                    qr_png_bytes: Some(png@),
                }) && r == LoginAction::Poll,
                LoginEvent::QrFailed(e) => final(self).phase@ == PhaseView::Error("连接失败: "@ + e@)
                    && r == LoginAction::Finish,
                LoginEvent::Polled(status) => match status@ {
                    QrStatusView::Waiting => r == LoginAction::PollAfterDelay && match old(self).phase@ {
                        PhaseView::WaitingScan { qr_png_bytes, .. } => final(self).phase@
                            == (PhaseView::WaitingScan { status: "📱 等待扫码..."@, qr_png_bytes }),
                        _ => final(self).phase@ == old(self).phase@,
                    },
                    QrStatusView::Scanned => r == LoginAction::PollAfterDelay && final(self).phase@
                        == (PhaseView::WaitingScan {
                        status: "📲 已扫描！请在手机上点击「确认登录」"@,
                        qr_png_bytes: match old(self).phase@ {
                            PhaseView::WaitingScan { qr_png_bytes, .. } => qr_png_bytes,
                            _ => None,
                        },
                    }),
                    QrStatusView::Confirmed { alt, redirect_url } => final(self).phase@
                        == PhaseView::Exchanging("✅ 确认成功！获取票据..."@) && (r matches LoginAction::ExchangeTicket {
                        alt: ra,
                        redirect_url: ru,
                    } && ra@ == alt && ru@ == redirect_url),
                    QrStatusView::Expired => final(self).phase@ == PhaseView::Loading(
                        "⚠️ 二维码过期, 刷新..."@,
                    ) && r == LoginAction::RefreshQr,
                    QrStatusView::Unknown { .. } => final(self).phase@ == old(self).phase@ && r
                        == LoginAction::PollAfterDelay,
                },
                LoginEvent::PollFailed(_) => final(self).phase@ == old(self).phase@ && r
                    == LoginAction::PollAfterDelay,
                LoginEvent::TicketExchanged(c) => final(self).phase@ == PhaseView::FetchingHome && (
                r matches LoginAction::FetchHome(rc) && rc@ == c@),
                LoginEvent::TicketFailed(e) => final(self).phase@ == PhaseView::Error("登录失败: "@ + e@)
                    && r == LoginAction::Finish,
                LoginEvent::QrRefreshed(png) => final(self).phase@ == (PhaseView::WaitingScan {
                    status: scan_prompt(),
                    qr_png_bytes: Some(png@),
                }) && r == LoginAction::PollAfterDelay,
                LoginEvent::QrRefreshFailed(_) => final(self).phase@ == old(self).phase@ && r
                    == LoginAction::PollAfterDelay,
                LoginEvent::HomeFetched(items, title) => final(self).phase@ == (PhaseView::HomeLoaded {
                    items: items_view(items@),
                    title: title@,
                }) && r == LoginAction::Finish,
            },
            final(self).same_status(&*old(self)),
            final(self).chat_data == old(self).chat_data,
    {
        match event {
            LoginEvent::QrReady(png) => {
                self.phase = LoginPhase::WaitingScan {
                    status: "📱 请用微博手机客户端扫描二维码".to_string(),
                    qr_png_bytes: Some(png),
                };
                LoginAction::Poll
            },
            LoginEvent::QrFailed(e) => {
                self.phase = LoginPhase::Error(prefixed("连接失败: ", e.as_str()));
                LoginAction::Finish
            },
            LoginEvent::Polled(status) => match status {
                QrStatus::Waiting => {
                    let mut phase = LoginPhase::CheckingCookie;
                    std::mem::swap(&mut phase, &mut self.phase);
                    self.phase = match phase {
                        LoginPhase::WaitingScan { qr_png_bytes, .. } => LoginPhase::WaitingScan {
                            status: "📱 等待扫码...".to_string(),
                            qr_png_bytes,
                        },
                        other => other,
                    };
                    LoginAction::PollAfterDelay
                },
                QrStatus::Scanned => {
                    let mut phase = LoginPhase::CheckingCookie;
                    std::mem::swap(&mut phase, &mut self.phase);
                    let qr = match phase {
                        LoginPhase::WaitingScan { qr_png_bytes, .. } => qr_png_bytes,
                        _ => None,
                    };
                    self.phase = LoginPhase::WaitingScan {
                        status: "📲 已扫描！请在手机上点击「确认登录」".to_string(),
                        qr_png_bytes: qr,
                    };
                    LoginAction::PollAfterDelay
                },
                QrStatus::Confirmed { alt, redirect_url } => {
                    self.phase = LoginPhase::Exchanging("✅ 确认成功！获取票据...".to_string());
                    LoginAction::ExchangeTicket { alt, redirect_url }
                },
                QrStatus::Expired => {
                    self.phase = LoginPhase::Loading("⚠️ 二维码过期, 刷新...".to_string());
                    LoginAction::RefreshQr
                },
                QrStatus::Unknown { .. } => LoginAction::PollAfterDelay,
            },
            LoginEvent::PollFailed(_) => LoginAction::PollAfterDelay,
            LoginEvent::TicketExchanged(c) => {
                self.phase = LoginPhase::FetchingHome;
                LoginAction::FetchHome(c)
            },
            LoginEvent::TicketFailed(e) => {
                self.phase = LoginPhase::Error(prefixed("登录失败: ", e.as_str()));
                LoginAction::Finish
            },
            LoginEvent::QrRefreshed(png) => {
                self.phase = LoginPhase::WaitingScan {
                    status: "📱 请用微博手机客户端扫描二维码".to_string(),
                    qr_png_bytes: Some(png),
                };
                LoginAction::PollAfterDelay
            },
            LoginEvent::QrRefreshFailed(_) => LoginAction::PollAfterDelay,
            LoginEvent::HomeFetched(items, title) => {
                self.phase = home_loaded(items, title);
                LoginAction::Finish
            },
        }
    }

    /// One step of the saved-cookie flow: a cookie that is not valid (or
    /// whose check failed) leads to the QR login; a valid one fetches the
    /// home content, shown at the end.
    pub fn cookie_step(&mut self, event: CookieEvent) -> (r: CookieAction)
        ensures
            match event {
                CookieEvent::Checked(v) => if v == Some(true) {
                    final(self).phase@ == PhaseView::FetchingHome && r == CookieAction::FetchHome
                } else {
                    final(self).phase@ == PhaseView::Loading("Cookie 已过期, 重新连接..."@) && r
                        == CookieAction::QrLogin
                },
                CookieEvent::HomeFetched(items, title) => final(self).phase@ == (PhaseView::HomeLoaded {
                    items: items_view(items@),
                    title: title@,
                }) && r == CookieAction::Finish,
            },
            final(self).same_status(&*old(self)),
            final(self).chat_data == old(self).chat_data,
    {
        match event {
            CookieEvent::Checked(v) => {
                let valid = match v {
                    Some(b) => b,
                    None => false,
                };
                if !valid {
                    self.phase = LoginPhase::Loading("Cookie 已过期, 重新连接...".to_string());
                    CookieAction::QrLogin
                } else {
                    self.phase = LoginPhase::FetchingHome;
                    CookieAction::FetchHome
                }
            },
            CookieEvent::HomeFetched(items, title) => {
                self.phase = home_loaded(items, title);
                CookieAction::Finish
            },
        }
    }

    /// Logging out: the phase says so; the caller deletes the saved cookie
    /// and starts the QR login.
    pub fn logout(&mut self)
        ensures
            final(self).phase@ == PhaseView::Loading("正在登出..."@),
            final(self).same_status(&*old(self)),
            final(self).chat_data == old(self).chat_data,
    {
        self.phase = LoginPhase::Loading("正在登出...".to_string());
    }

    /// Switches the tab; returns whether the chat data must be loaded (the
    /// chat tab was chosen).
    pub fn switch_tab(&mut self, tab: ActiveTab) -> (r: bool)
        ensures
            final(self).active_tab == tab,
            r == (tab == ActiveTab::Chat),
            final(self).phase == old(self).phase,
            final(self).since_id == old(self).since_id,
            final(self).loading_more == old(self).loading_more,
            final(self).feed_list_id == old(self).feed_list_id,
            final(self).dm_unread == old(self).dm_unread,
            final(self).dm_fetched == old(self).dm_fetched,
            final(self).ws_started == old(self).ws_started,
            final(self).chat_data == old(self).chat_data,
    {
        self.active_tab = tab;
        tab == ActiveTab::Chat
    }

    /// Work to start after a frame: once the timeline is shown, fetch the
    /// unread count once, and open the push connection once (when the
    /// user's id is known).
    pub fn on_render(&mut self) -> (r: RenderActions)
        ensures
            (old(self).phase is HomeLoaded) ==> r.fetch_dm == !old(self).dm_fetched
                && final(self).dm_fetched && final(self).ws_started && (if !old(self).ws_started {
                match old(self).chat_data {
                    Some(c) => if c.my_uid@.len() > 0 {
                        r.start_ws.deep_view() == Some(c.my_uid@)
                    } else {
                        r.start_ws is None
                    },
                    None => r.start_ws is None,
                }
            } else {
                r.start_ws is None
            }),
            !(old(self).phase is HomeLoaded) ==> !r.fetch_dm && r.start_ws is None
                && final(self).dm_fetched == old(self).dm_fetched && final(self).ws_started == old(
                self,
            ).ws_started,
            r.fetch_dm == ((old(self).phase is HomeLoaded) && !old(self).dm_fetched),
            final(self).dm_fetched == (old(self).dm_fetched || old(self).phase is HomeLoaded),
            r.start_ws is Some ==> (old(self).phase is HomeLoaded) && !old(self).ws_started,
            final(self).ws_started == (old(self).ws_started || old(self).phase is HomeLoaded),
            final(self).phase == old(self).phase,
            final(self).chat_data == old(self).chat_data,
            final(self).since_id == old(self).since_id,
            final(self).loading_more == old(self).loading_more,
            final(self).feed_list_id == old(self).feed_list_id,
            final(self).active_tab == old(self).active_tab,
            final(self).dm_unread == old(self).dm_unread,
    {
        let mut actions = RenderActions { fetch_dm: false, start_ws: None };
        if let LoginPhase::HomeLoaded { .. } = self.phase {
            if !self.dm_fetched {
                self.dm_fetched = true;
                actions.fetch_dm = true;
            }
            if !self.ws_started {
                self.ws_started = true;
                match &self.chat_data {
                    Some(c) => {
                        if !c.my_uid.as_str().is_empty() {
                            actions.start_ws = Some(c.my_uid.clone());
                        }
                    },
                    None => {},
                }
            }
        }
        actions
    }

    /// The unread count of direct messages arrived.
    pub fn apply_dm_unread(&mut self, count: u64)
        ensures
            final(self).dm_unread == count,
            final(self).phase == old(self).phase,
            final(self).since_id == old(self).since_id,
            final(self).loading_more == old(self).loading_more,
            final(self).feed_list_id == old(self).feed_list_id,
            final(self).active_tab == old(self).active_tab,
            final(self).dm_fetched == old(self).dm_fetched,
            final(self).ws_started == old(self).ws_started,
            final(self).chat_data == old(self).chat_data,
    {
        self.dm_unread = count;
    }

    /// The timeline list was scrolled so that entries up to `visible_end`
    /// (exclusive) of `total` are shown. Near the end (within three
    /// entries), when the last post id is known and no load is under way,
    /// a load of more posts starts: returns the last post id and the feed
    /// list to load from.
    pub fn try_load_more(&mut self, visible_end: usize, total: usize) -> (r: Option<(String, Option<String>)>)
        ensures
            (!old(self).loading_more && old(self).since_id@.len() > 0 && visible_end + 3 >= total)
                ==> (r matches Some((sid, fid)) && sid@ == old(self).since_id@ && fid.deep_view()
                == old(self).feed_list_id.deep_view() && final(self).loading_more),
            !(!old(self).loading_more && old(self).since_id@.len() > 0 && visible_end + 3 >= total)
                ==> r is None && final(self).loading_more == old(self).loading_more,
            final(self).phase == old(self).phase,
            final(self).since_id == old(self).since_id,
            final(self).feed_list_id == old(self).feed_list_id,
            final(self).active_tab == old(self).active_tab,
            final(self).dm_unread == old(self).dm_unread,
            final(self).dm_fetched == old(self).dm_fetched,
            final(self).ws_started == old(self).ws_started,
            final(self).chat_data == old(self).chat_data,
    {
        if self.loading_more || self.since_id.as_str().is_empty() {
            return None;
        }
        if visible_end < total && total - visible_end > 3 {
            return None;
        }
        self.loading_more = true;
        let fid = match &self.feed_list_id {
            Some(f) => Some(f.clone()),
            None => None,
        };
        Some((self.since_id.clone(), fid))
    }

    /// More posts arrived with the next post id: when the timeline is
    /// shown, they are appended, the title counts them, and the load is
    /// over.
    pub fn apply_more_items(&mut self, new_items: Vec<TimelineItem>, new_since_id: String)
        ensures
            match old(self).phase@ {
                PhaseView::HomeLoaded { items, .. } => final(self).phase@ == (PhaseView::HomeLoaded {
                    items: items + items_view(new_items@),
                    title: timeline_title((items.len() + new_items@.len()) as nat),
                }) && final(self).since_id@ == new_since_id@ && !final(self).loading_more,
                _ => final(self).phase@ == old(self).phase@ && final(self).since_id == old(self).since_id
                    && final(self).loading_more == old(self).loading_more,
            },
            final(self).feed_list_id == old(self).feed_list_id,
            final(self).active_tab == old(self).active_tab,
            final(self).dm_unread == old(self).dm_unread,
            final(self).dm_fetched == old(self).dm_fetched,
            final(self).ws_started == old(self).ws_started,
            final(self).chat_data == old(self).chat_data,
    {
        let mut phase = LoginPhase::CheckingCookie;
        std::mem::swap(&mut phase, &mut self.phase);
        match phase {
            LoginPhase::HomeLoaded { items, title: _ } => {
                let ghost old_items = items@;
                let mut items = items;
                let mut more = new_items;
                let ghost more0 = more@;
                items.append(&mut more);
                assert(items_view(items@) =~= items_view(old_items) + items_view(more0));
                let title = format_timeline_title(items.len());
                self.phase = LoginPhase::HomeLoaded { items, title };
                self.since_id = new_since_id;
                self.loading_more = false;
            },
            other => {
                self.phase = other;
            },
        }
    }

    /// The conversation list arrived, with the user's own id and name when
    /// known.
    pub fn apply_chat_loaded(&mut self, contacts: Vec<Contact>, my_info: Option<(String, String)>)
        ensures
            final(self).chat_data matches Some(c) && c.contacts@ == contacts@ && !c.loading && (
            match my_info {
                Some((uid, _)) => c.my_uid@ == uid@,
                None => c.my_uid@ == match old(self).chat_data {
                    Some(o) => o.my_uid@,
                    None => Seq::<char>::empty(),
                },
            }),
            final(self).phase == old(self).phase,
            final(self).same_status(&*old(self)),
    {
        let mut chat = match self.chat_data.take() {
            Some(c) => c,
            None => ChatData::new(),
        };
        chat.contacts = contacts;
        chat.loading = false;
        if let Some((uid, _name)) = my_info {
            chat.my_uid = uid;
        }
        self.chat_data = Some(chat);
    }

    /// A push arrived at `now`: it goes to the chat state, which is created
    /// first when the chat tab was never opened. Returns whether to play the
    /// notification sound.
    pub fn on_push(&mut self, push: WsMessage, now: u64) -> (r: bool)
        requires
            old(self).chat_data matches Some(c) ==> {
                &&& c.messages@.len() + 1 <= usize::MAX / 2
                &&& forall|i: int| 0 <= i < c.contacts@.len() ==> (#[trigger] c.contacts@[i]).unread_count < u64::MAX
            },
        ensures
            final(self).chat_data matches Some(c1) && match old(self).chat_data {
                Some(c0) => chat::push_applied(c0, c1, push, now, r),
                None => exists|c0: ChatData| chat::is_fresh_chat(c0) && #[trigger] chat::push_applied(c0, c1, push, now, r),
            },
            r == (chat::push_text(push.data).len() > 0 && !chat::push_message(push.data, now,
                match old(self).chat_data {
                    Some(c) => c.my_uid@,
                    None => Seq::<char>::empty(),
                }).is_self),
            final(self).phase == old(self).phase,
            final(self).same_status(&*old(self)),
    {
        let mut c = match self.chat_data.take() {
            Some(c) => c,
            None => ChatData::new(),
        };
        let ghost c0 = c;
        let r = c.apply_push(push, now);
        assert(chat::push_applied(c0, c, push, now, r));
        self.chat_data = Some(c);
        r
    }
}

} // verus!

//! Login in an embedded browser: the messages that the page posts back,
//! and which of them is the result of the login.

use vstd::prelude::*;

use crate::json::{self, Json};
use crate::qr;

verus! {

broadcast use vstd::string::group_string_axioms;

/// The outcome of a browser login: the page's cookies (empty when the
/// window was closed first) and whether an API call made with them
/// succeeded.
#[derive(Debug, Clone)]
pub struct LoginResult {
    pub cookies: String,
    pub api_ok: bool,
}

/// A message posted by the page.
#[derive(Debug)]
pub enum IpcEvent {
    /// `type: logged_in`: the page reached weibo.com, with its cookies.
    LoggedIn(LoginResult),
    /// `type: api_result`: the check call answered.
    ApiResult(LoginResult),
    /// Any other message.
    Ignored,
}

/// The value of `type` of a posted message.
pub open spec fn message_type(msg: Json) -> Option<Seq<char>> {
    json::str_of(json::field(msg, "type"@))
}

/// Reads a message that the page posted (already parsed as JSON).
pub fn classify_ipc(msg: &Json) -> (r: IpcEvent)
    ensures
        message_type(*msg) == Some("logged_in"@) ==> (r matches IpcEvent::LoggedIn(l)
            && l.cookies@ == match json::str_of(json::field(*msg, "cookies"@)) {
                Some(c) => c,
                None => Seq::<char>::empty(),
            } && !l.api_ok),
        message_type(*msg) == Some("api_result"@) ==> (r matches IpcEvent::ApiResult(l)
            && l.cookies@.len() == 0 && l.api_ok == qr::reply_ok(*msg)),
        message_type(*msg) != Some("logged_in"@) && message_type(*msg) != Some("api_result"@)
            ==> r is Ignored,
{
    proof {
        reveal_strlit("");
        reveal_strlit("logged_in");
        reveal_strlit("api_result");
        assert("logged_in"@.len() != "api_result"@.len());
    }
    let t = json::str_opt(msg.get("type"));
    match t {
        Some(k) => {
            if crate::text::same_str(k.as_str(), "logged_in") {
                let cookies = json::text_or(json::str_opt(msg.get("cookies")), "");
                IpcEvent::LoggedIn(LoginResult { cookies, api_ok: false })
            } else if crate::text::same_str(k.as_str(), "api_result") {
                IpcEvent::ApiResult(LoginResult { cookies: String::new(), api_ok: qr::is_reply_ok(msg) })
            } else {
                IpcEvent::Ignored
            }
        },
        None => IpcEvent::Ignored,
    }
}

/// The result of the login, from the first result that arrived and the
/// second, if one arrived in time: after a login (the first result has
/// cookies) the second result, when there is one, is the answer; otherwise
/// the first is.
pub fn final_result(first: LoginResult, second: Option<LoginResult>) -> (r: LoginResult)
    ensures
        first.cookies@.len() > 0 && second is Some ==> r == second->0,
        first.cookies@.len() == 0 || second is None ==> r == first,
{
    if !first.cookies.as_str().is_empty() {
        match second {
            Some(s) => s,
            None => first,
        }
    } else {
        first
    }
}

} // verus!

//! The terminal login: how each answer of the status check is reported
//! and what follows it, and the lines that list the home timeline.

use vstd::prelude::*;
use vstd::string::StringSliceAdditionalSpecFns;

use crate::domain::TimelineItem;
use crate::qr::QrStatus;
use crate::text;
use crate::text::{append_str, u64_to_decimal};

verus! {

broadcast use vstd::string::group_string_axioms;

/// What a status check prints before the next step.
#[derive(Debug, PartialEq, Eq, Structural)]
pub enum PollOutput {
    /// A progress dot (first check that finds the code waiting).
    Dot,
    /// The prompt to confirm on the phone (first check that finds it
    /// scanned).
    ScannedPrompt,
    /// Nothing new.
    Nothing,
}

/// The next step of the terminal login after a status check.
#[derive(Debug)]
pub enum TerminalStep {
    /// Print, then check again after two seconds.
    Wait(PollOutput),
    /// Exchange the ticket of the confirmation.
    Exchange { alt: String, redirect_url: String },
    /// The code expired: fetch and show a new one.
    Refresh,
    /// Any other answer: log it and check again after two seconds.
    Other(QrStatus),
}

/// Handles the answer of a status check; `last` is what the previous
/// check reported (`waiting`, `scanned`, or empty).
pub fn terminal_poll_step(last: &mut String, status: QrStatus) -> (r: TerminalStep)
    ensures
        match status {
            QrStatus::Waiting => {
                &&& final(last)@ == "waiting"@
                &&& r matches TerminalStep::Wait(o)
                &&& o == if old(last)@ == "waiting"@ { PollOutput::Nothing } else { PollOutput::Dot }
            },
            QrStatus::Scanned => {
                &&& final(last)@ == "scanned"@
                &&& r matches TerminalStep::Wait(o)
                &&& o == if old(last)@ == "scanned"@ { PollOutput::Nothing } else { PollOutput::ScannedPrompt }
            },
            QrStatus::Confirmed { alt, redirect_url } => {
                &&& final(last)@ == old(last)@
                &&& r matches TerminalStep::Exchange { alt: a, redirect_url: u }
                &&& a@ == alt@
                &&& u@ == redirect_url@
            },
            QrStatus::Expired => final(last)@.len() == 0 && r is Refresh,
            QrStatus::Unknown { .. } => final(last)@ == old(last)@ && (r matches TerminalStep::Other(s) && s == status),
        },
{
    match status {
        QrStatus::Waiting => {
            let o = if text::same_str(last.as_str(), "waiting") {
                PollOutput::Nothing
            } else {
                PollOutput::Dot
            };
            *last = "waiting".to_string();
            TerminalStep::Wait(o)
        },
        QrStatus::Scanned => {
            let o = if text::same_str(last.as_str(), "scanned") {
                PollOutput::Nothing
            } else {
                PollOutput::ScannedPrompt
            };
            *last = "scanned".to_string();
            TerminalStep::Wait(o)
        },
        QrStatus::Confirmed { alt, redirect_url } => TerminalStep::Exchange { alt, redirect_url },
        QrStatus::Expired => {
            *last = String::new();
            TerminalStep::Refresh
        },
        other => TerminalStep::Other(other),
    }
}

/// The text of a post as one line of the list: its first 70 bytes when it
/// is longer.
pub open spec fn preview_of(t: Seq<char>) -> Seq<char> {
    let bytes = vstd::utf8::encode_utf8(t);
    if bytes.len() > 70 {
        vstd::utf8::decode_utf8(bytes.take(70))
    } else {
        t
    }
}

/// A text can be cut after its first 70 bytes (or is no longer).
pub open spec fn preview_cut_ok(t: Seq<char>) -> bool {
    let bytes = vstd::utf8::encode_utf8(t);
    bytes.len() <= 70 || vstd::utf8::is_char_boundary(bytes, 70)
}

/// The line for the `i`-th (from 0) of `n` posts: `[i+1/n] name: text`.
pub open spec fn home_line_of(i: nat, n: nat, item: TimelineItem) -> Seq<char> {
    "  ["@ + text::decimal(i + 1) + "/"@ + text::decimal(n) + "] "@ + item.user_name@ + ": "@ + preview_of(item.text@)
}

/// Formats one line of the home listing.
pub fn home_line(i: u64, n: u64, item: &TimelineItem) -> (r: String)
    requires
        i < u64::MAX,
        preview_cut_ok(item.text@),
    ensures
        r@ == home_line_of(i as nat, n as nat, *item),
{
    let t = item.text.as_str();
    let len = t.as_bytes().len();
    proof {
        vstd::utf8::encode_utf8_valid_utf8(t@);
        vstd::utf8::is_char_boundary_start_end_of_seq(vstd::utf8::encode_utf8(t@));
        assert(t.spec_bytes() == vstd::utf8::encode_utf8(t@));
    }
    let mut s = "  [".to_string();
    let a = u64_to_decimal(i + 1);
    append_str(&mut s, a.as_str());
    append_str(&mut s, "/");
    let b = u64_to_decimal(n);
    append_str(&mut s, b.as_str());
    append_str(&mut s, "] ");
    append_str(&mut s, item.user_name.as_str());
    append_str(&mut s, ": ");
    if len > 70 {
        let (head, _rest) = t.split_at(70);
        proof {
            vstd::utf8::encode_utf8_decode_utf8(head@);
        }
        append_str(&mut s, head);
    } else {
        append_str(&mut s, t);
    }
    s
}

} // verus!

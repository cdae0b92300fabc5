//! The room surfaces' decisions: the selector's rows, badges and new-room
//! input; the room log's reply disarming and read-at-tail timestamp; the
//! timeline's diagnostic header; and installing the stylesheet once.
use vstd::prelude::*;

use crate::context::WriteSession;
use crate::text::{all_ws, decimal, decimal_string, is_blank, lowercase, str_eq, to_lowercase, trim, trimmed};

verus! {

/// An unread badge's text: nothing at zero, the count below ten, "10+" from
/// ten on (a room's window holds the ten newest messages, so counts cap
/// there).
pub fn badge_text(unread: usize) -> (r: Option<String>)
    ensures
        unread == 0 <==> r is None,
        r matches Some(t) ==> t@ == (if unread >= 10 {
            "10+"@
        } else {
            decimal(unread as nat)
        }),
{
    if unread == 0 {
        return None;
    }
    if unread >= 10 {
        return Some(String::from_str("10+"));
    }
    Some(decimal_string(unread))
}

/// Whether a room's row looks selected: the rooms surface is the one the
/// reader is looking at (a host that says nothing means yes), and it is the
/// selected room.
pub fn room_selected(active: Option<bool>, selected: Option<u128>, room: u128) -> (r: bool)
    ensures
        r == (active != Some(false) && selected == Some(room)),
{
    let surface_active = match active {
        Some(a) => a,
        None => true,
    };
    surface_active && match selected {
        Some(s) => s == room,
        None => false,
    }
}

/// What a key in the new-room input does.
#[derive(PartialEq, Eq, Debug)]
pub enum NewRoomKey {
    /// Enter on a name, with someone to write as: create the room `name`
    /// (trimmed) created by `author`, select it, and close the input.
    Create { name: String, author: u128 },
    /// Enter on a blank name, or with nobody able to write: the key is
    /// consumed and the input stays.
    Stay,
    /// Escape: consumed, and the input closes.
    Cancel,
    /// Any other key: let it through.
    Pass,
}

pub fn new_room_key(key: &str, draft: &str, write: WriteSession) -> (r: NewRoomKey)
    ensures
        key@ == "Enter"@ ==> (if all_ws(draft@) || !(write is Write) {
            r == NewRoomKey::Stay
        } else {
            r matches NewRoomKey::Create { name, author } && name@ == trimmed(draft@) && author == write->0
        }),
        key@ == "Escape"@ ==> r == NewRoomKey::Cancel,
        key@ != "Enter"@ && key@ != "Escape"@ ==> r == NewRoomKey::Pass,
{
    proof {
        reveal_strlit("Enter");
        reveal_strlit("Escape");
        assert("Enter"@.len() != "Escape"@.len());
    }
    if str_eq(key, "Enter") {
        if is_blank(draft) {
            return NewRoomKey::Stay;
        }
        match write {
            WriteSession::Write(me) => NewRoomKey::Create { name: trim(draft), author: me },
            _ => NewRoomKey::Stay,
        }
    } else if str_eq(key, "Escape") {
        NewRoomKey::Cancel
    } else {
        NewRoomKey::Pass
    }
}

/// Whether leaving the new-room input closes it: only when nothing was
/// typed.
pub fn closes_on_blur(draft: &str) -> (r: bool)
    ensures
        r == all_ws(draft@),
{
    is_blank(draft)
}

/// The newest timestamp among the visible messages (those that carry one).
pub fn newest_timestamp(timestamps: &[Option<i64>]) -> (r: Option<i64>)
    ensures
        r is None <==> forall|i: int| 0 <= i < timestamps@.len() ==> timestamps@[i] is None,
        r matches Some(m) ==> (exists|i: int| 0 <= i < timestamps@.len() && timestamps@[i] == Some(m)) && forall|i: int|
            0 <= i < timestamps@.len() && (#[trigger] timestamps@[i]) is Some ==> timestamps@[i]->0 <= m,
{
    let mut best: Option<i64> = None;
    let mut i: usize = 0;
    while i < timestamps.len()
        invariant
            i <= timestamps@.len(),
            best is None <==> forall|j: int| 0 <= j < i ==> timestamps@[j] is None,
            best matches Some(m) ==> (exists|j: int| 0 <= j < i && timestamps@[j] == Some(m)) && forall|j: int|
                0 <= j < i && (#[trigger] timestamps@[j]) is Some ==> timestamps@[j]->0 <= m,
        decreases timestamps.len() - i,
    {
        if let Some(t) = timestamps[i] {
            match best {
                Some(m) => {
                    if t > m {
                        best = Some(t);
                    }
                },
                None => {
                    best = Some(t);
                },
            }
        }
        i += 1;
    }
    best
}

/// Whether the armed reply is disarmed as the room changes: a reply armed
/// in one room must not attach to a message sent from another, while
/// selecting the same room again keeps it. `previous` is the room the last
/// run saw, `None` on the first run.
pub fn reply_disarmed(previous: Option<Option<u128>>, now: Option<u128>) -> (r: bool)
    ensures
        r == (previous is Some && previous->0 != now),
{
    match previous {
        Some(p) => match (p, now) {
            (Some(a), Some(b)) => a != b,
            (None, None) => false,
            _ => true,
        },
        None => false,
    }
}

/// The timeline's diagnostic header, as text: the scroll mode and its CSS
/// class, the number of loaded rows, and yes or no for whether more exist
/// above or below and whether it follows the tail.
pub struct DebugHeader {
    pub mode: String,
    pub mode_class: String,
    pub items: String,
    pub more_preceding: String,
    pub more_following: String,
    pub auto_scroll: String,
}

pub open spec fn yes_no(b: bool) -> Seq<char> {
    if b {
        "yes"@
    } else {
        "no"@
    }
}

fn yesno(b: bool) -> (r: String)
    ensures
        r@ == yes_no(b),
{
    if b {
        String::from_str("yes")
    } else {
        String::from_str("no")
    }
}

/// The CSS class of the mode's value, from the mode lowercased.
pub fn debug_mode_class(lowered_mode: &str) -> (r: String)
    ensures
        r@ == "debugValue mode-"@ + lowered_mode@,
{
    String::from_str("debugValue mode-").concat(lowered_mode)
}

/// What the scroll manager is doing right now, for someone debugging a
/// timeline.
#[allow(non_snake_case)]
pub fn TimelineDebugHeader(
    mode: &str,
    has_more_preceding: bool,
    has_more_following: bool,
    should_auto_scroll: bool,
    item_count: usize,
) -> (r: DebugHeader)
    ensures
        r.mode@ == mode@,
        r.mode_class@ == "debugValue mode-"@ + lowercase(mode@),
        r.items@ == decimal(item_count as nat),
        r.more_preceding@ == yes_no(has_more_preceding),
        r.more_following@ == yes_no(has_more_following),
        r.auto_scroll@ == yes_no(should_auto_scroll),
{
    let lower = to_lowercase(mode);
    let mode_class = debug_mode_class(lower.as_str());
    DebugHeader {
        mode: String::from_str(mode),
        mode_class,
        items: decimal_string(item_count),
        more_preceding: yesno(has_more_preceding),
        more_following: yesno(has_more_following),
        auto_scroll: yesno(should_auto_scroll),
    }
}

/// The `id` the injected stylesheet element carries, which is also how a
/// second install knows there is nothing to do.
pub const STYLE_ELEMENT_ID: &'static str = "ankurah-chat-styles";

/// The stylesheet goes in once per document: whether to inject it, given
/// whether an element with `STYLE_ELEMENT_ID` is already there.
#[allow(non_snake_case)]
pub fn ChatStyles(already_installed: bool) -> (install: bool)
    ensures
        install == !already_installed,
{
    !already_installed
}

/// How far from the bottom, in CSS pixels, a timeline still counts as
/// showing its live tail.
pub const LIVE_TAIL_SLACK: i64 = 48;

/// Whether a scrolled timeline shows its live tail: what lies below its
/// visible part is within `LIVE_TAIL_SLACK`. Only a reader at the live tail
/// has their cursor advanced; one scrolled up into history keeps it.
pub fn at_live_tail(scroll_top: i32, client_height: i32, scroll_height: i32) -> (r: bool)
    ensures
        r == (scroll_height - (scroll_top + client_height) <= LIVE_TAIL_SLACK),
{
    (scroll_height as i64) - ((scroll_top as i64) + (client_height as i64)) <= LIVE_TAIL_SLACK
}

} // verus!

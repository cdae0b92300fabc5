//! What a key in the message box does.
//!
//! Enter sends and Shift+Enter inserts a newline; Escape cancels an edit, or
//! else an armed reply; Cmd/Ctrl+Up and Cmd/Ctrl+Down walk the reader's own
//! messages for editing. An open autocomplete popup captures the arrows,
//! Enter, Tab and Escape, but never a modified key. An Enter or Tab that
//! confirms an IME composition (`isComposing`, or WebKit's keyCode 229 after
//! `compositionend`) neither sends nor picks, and an autorepeated Enter does
//! not send again.
use vstd::prelude::*;

use crate::text::str_eq;

verus! {

/// Whether a key would have changed or sent the draft: Enter, Backspace and
/// Delete; paste and cut by chord (V or X with Ctrl or Meta); Shift+Insert;
/// and any single printable character without Ctrl or Meta. Arrows, Home,
/// End, Tab, Escape and bare modifiers move a caret or dismiss a chip, and
/// are not a reach for the draft. Alt is not excluded: on macOS it composes
/// characters.
pub open spec fn writes_draft(key: Seq<char>, ctrl: bool, meta: bool, shift: bool) -> bool {
    ||| key == "Enter"@ || key == "Backspace"@ || key == "Delete"@
    ||| (key == "v"@ || key == "V"@ || key == "x"@ || key == "X"@) && (ctrl || meta)
    ||| key == "Insert"@ && shift
    ||| key.len() == 1 && !ctrl && !meta
}

pub fn would_write_draft(key: &str, ctrl: bool, meta: bool, shift: bool) -> (r: bool)
    ensures
        r == writes_draft(key@, ctrl, meta, shift),
        key@.len() == 1 && !ctrl && !meta ==> r,
{
    if str_eq(key, "Enter") || str_eq(key, "Backspace") || str_eq(key, "Delete") {
        return true;
    }
    if (str_eq(key, "v") || str_eq(key, "V") || str_eq(key, "x") || str_eq(key, "X")) && (ctrl || meta) {
        return true;
    }
    if str_eq(key, "Insert") && shift {
        return true;
    }
    key.unicode_len() == 1 && !ctrl && !meta
}

/// Whether a key released in the box may have moved the caret, so the
/// drafts are derived again.
pub open spec fn moves_caret_spec(key: Seq<char>) -> bool {
    key == "ArrowLeft"@ || key == "ArrowRight"@ || key == "ArrowUp"@ || key == "ArrowDown"@ || key == "Home"@
        || key == "End"@
}

pub fn moves_caret(key: &str) -> (r: bool)
    ensures
        r == moves_caret_spec(key@),
{
    str_eq(key, "ArrowLeft") || str_eq(key, "ArrowRight") || str_eq(key, "ArrowUp") || str_eq(key, "ArrowDown")
        || str_eq(key, "Home") || str_eq(key, "End")
}

/// The next row of a popup of `len` rows, wrapping to the first.
pub fn popup_next(selected: usize, len: usize) -> (r: usize)
    requires
        len > 0,
        selected < usize::MAX,
    ensures
        r == (selected + 1) % (len as int),
        r < len,
{
    (selected + 1) % len
}

/// The previous row of a popup of `len` rows, wrapping to the last.
pub fn popup_prev(selected: usize, len: usize) -> (r: usize)
    requires
        len > 0,
        selected + len <= usize::MAX,
    ensures
        r == (selected + len - 1) % (len as int),
        r < len,
{
    (selected + len - 1) % len
}

/// The row Enter or Tab picks: the selected one, or the last if the list
/// shrank under the selection.
pub fn popup_pick(selected: usize, len: usize) -> (r: usize)
    requires
        len > 0,
    ensures
        r == (if selected < len {
            selected as int
        } else {
            len - 1
        }),
{
    if selected < len {
        selected
    } else {
        len - 1
    }
}

/// A key going down in the box, as the handler reads it.
pub struct KeyPress {
    pub key: String,
    pub shift: bool,
    pub ctrl: bool,
    pub meta: bool,
    pub alt: bool,
    /// `isComposing`.
    pub composing: bool,
    pub key_code: u32,
    /// Key autorepeat.
    pub repeat: bool,
}

/// The two autocomplete popups.
#[derive(Clone, Copy, PartialEq, Eq, Debug)]
pub enum Popup {
    Mention,
    Emoji,
}

/// What the handler does with a key. Every action but `Demand`, `Hold` and
/// `Pass` also prevents the key's default.
#[derive(Clone, Copy, PartialEq, Eq, Debug)]
pub enum KeyAction {
    /// An anonymous reader whose caret is in the box pressed a writing key:
    /// raise the latched sign-in demand and do nothing else.
    Demand,
    /// Move the popup's selection to this row.
    Select(Popup, usize),
    /// Insert this row of the popup.
    Pick(Popup, usize),
    /// An Enter or Tab that confirms an IME composition over an open popup:
    /// nothing at all.
    Hold,
    /// Close the popup (a second Escape cancels the edit).
    Close(Popup),
    Send,
    /// Leave edit mode and clear the draft.
    CancelEdit,
    /// Disarm the reply; the draft is untouched.
    CancelReply,
    /// Edit the reader's previous own message.
    EditOlder,
    /// Edit the reader's next own message, or leave edit mode past the last.
    EditNewer,
    /// Let the key through.
    Pass,
}

/// An Enter or Tab that is not an IME composition confirming.
pub open spec fn confirms(k: KeyPress) -> bool {
    !k.composing && k.key_code != 229
}

/// How an open popup of `len` rows (selection `sel`) answers a key; `None`
/// lets the key through to what follows.
pub open spec fn popup_answer(k: KeyPress, popup: Popup, len: usize, sel: usize) -> Option<KeyAction> {
    if len == 0 || k.meta || k.ctrl || k.alt {
        None
    } else if k.key@ == "ArrowDown"@ {
        Some(KeyAction::Select(popup, ((sel + 1) % (len as int)) as usize))
    } else if k.key@ == "ArrowUp"@ {
        Some(KeyAction::Select(popup, ((sel + len - 1) % (len as int)) as usize))
    } else if (k.key@ == "Enter"@ || k.key@ == "Tab"@) && !k.shift {
        if confirms(k) {
            Some(KeyAction::Pick(popup, if sel < len { sel } else { (len - 1) as usize }))
        } else {
            Some(KeyAction::Hold)
        }
    } else if k.key@ == "Escape"@ {
        Some(KeyAction::Close(popup))
    } else {
        None
    }
}

/// The key table, in order: the anonymous reader's demand, the mention
/// popup, the emoji popup, then send, cancel and edit navigation.
pub open spec fn key_action_spec(
    k: KeyPress,
    gated: bool,
    writes: bool,
    mention_len: usize,
    mention_sel: usize,
    emoji_len: usize,
    emoji_sel: usize,
    editing: bool,
    replying: bool,
) -> KeyAction {
    if gated && writes {
        KeyAction::Demand
    } else if popup_answer(k, Popup::Mention, mention_len, mention_sel) is Some {
        popup_answer(k, Popup::Mention, mention_len, mention_sel)->0
    } else if popup_answer(k, Popup::Emoji, emoji_len, emoji_sel) is Some {
        popup_answer(k, Popup::Emoji, emoji_len, emoji_sel)->0
    } else if k.key@ == "Enter"@ && !k.shift && confirms(k) && !k.repeat {
        KeyAction::Send
    } else if k.key@ == "Escape"@ && editing {
        KeyAction::CancelEdit
    } else if k.key@ == "Escape"@ && replying {
        KeyAction::CancelReply
    } else if k.key@ == "ArrowUp"@ && (k.meta || k.ctrl) {
        KeyAction::EditOlder
    } else if k.key@ == "ArrowDown"@ && (k.meta || k.ctrl) && editing {
        KeyAction::EditNewer
    } else {
        KeyAction::Pass
    }
}

fn popup_key(k: &KeyPress, popup: Popup, len: usize, sel: usize) -> (r: Option<KeyAction>)
    requires
        len == 0 || sel + len <= usize::MAX,
    ensures
        r == popup_answer(*k, popup, len, sel),
{
    if len == 0 || k.meta || k.ctrl || k.alt {
        return None;
    }
    let key = k.key.as_str();
    if str_eq(key, "ArrowDown") {
        return Some(KeyAction::Select(popup, popup_next(sel, len)));
    }
    if str_eq(key, "ArrowUp") {
        return Some(KeyAction::Select(popup, popup_prev(sel, len)));
    }
    if (str_eq(key, "Enter") || str_eq(key, "Tab")) && !k.shift {
        if !k.composing && k.key_code != 229 {
            return Some(KeyAction::Pick(popup, popup_pick(sel, len)));
        }
        return Some(KeyAction::Hold);
    }
    if str_eq(key, "Escape") {
        return Some(KeyAction::Close(popup));
    }
    None
}

/// What a key going down in the box does. `gated` is whether the reader is
/// anonymous with a sign-in ceremony on offer; the popups are open when they
/// have rows.
pub fn key_action(
    k: &KeyPress,
    gated: bool,
    mention_len: usize,
    mention_sel: usize,
    emoji_len: usize,
    emoji_sel: usize,
    editing: bool,
    replying: bool,
) -> (r: KeyAction)
    requires
        mention_len == 0 || mention_sel + mention_len <= usize::MAX,
        emoji_len == 0 || emoji_sel + emoji_len <= usize::MAX,
    ensures
        r == key_action_spec(
            *k,
            gated,
            writes_draft(k.key@, k.ctrl, k.meta, k.shift),
            mention_len,
            mention_sel,
            emoji_len,
            emoji_sel,
            editing,
            replying,
        ),
        k.key@ == "ArrowUp"@ && (k.ctrl || k.meta) ==> r == KeyAction::EditOlder,
        k.key@ == "ArrowDown"@ && (k.ctrl || k.meta) && editing ==> r == KeyAction::EditNewer,
{
    proof {
        if k.ctrl || k.meta {
            law_edit_navigation(*k, gated, mention_len, mention_sel, emoji_len, emoji_sel, replying);
        }
    }
    if gated && would_write_draft(k.key.as_str(), k.ctrl, k.meta, k.shift) {
        return KeyAction::Demand;
    }
    if let Some(a) = popup_key(k, Popup::Mention, mention_len, mention_sel) {
        return a;
    }
    if let Some(a) = popup_key(k, Popup::Emoji, emoji_len, emoji_sel) {
        return a;
    }
    let key = k.key.as_str();
    if str_eq(key, "Enter") && !k.shift && !k.composing && k.key_code != 229 && !k.repeat {
        KeyAction::Send
    } else if str_eq(key, "Escape") && editing {
        KeyAction::CancelEdit
    } else if str_eq(key, "Escape") && replying {
        KeyAction::CancelReply
    } else if str_eq(key, "ArrowUp") && (k.meta || k.ctrl) {
        KeyAction::EditOlder
    } else if str_eq(key, "ArrowDown") && (k.meta || k.ctrl) && editing {
        KeyAction::EditNewer
    } else {
        KeyAction::Pass
    }
}

// ---- laws ----

/// Every key whose name is a single character writes into the draft when
/// neither Ctrl nor Meta is held, whatever Shift says (a capital letter, `@`
/// or `?` is typed with Shift): for an anonymous reader with a ceremony on
/// offer it raises the demand, whatever the popups show.
pub proof fn law_single_characters_write(
    k: KeyPress,
    shift: bool,
    mention_len: usize,
    mention_sel: usize,
    emoji_len: usize,
    emoji_sel: usize,
    editing: bool,
    replying: bool,
)
    requires
        k.key@.len() == 1,
        !k.ctrl,
        !k.meta,
    ensures
        writes_draft(k.key@, false, false, shift),
        key_action_spec(
            k,
            true,
            writes_draft(k.key@, k.ctrl, k.meta, k.shift),
            mention_len,
            mention_sel,
            emoji_len,
            emoji_sel,
            editing,
            replying,
        ) == KeyAction::Demand,
{
}

/// Cmd+Up and Ctrl+Up walk back to the reader's previous own message, and
/// Cmd+Down and Ctrl+Down (while editing) forward: no popup takes a modified
/// key, neither is a writing key, and it makes no difference which of the
/// two modifiers is the one held.
pub proof fn law_edit_navigation(
    k: KeyPress,
    gated: bool,
    mention_len: usize,
    mention_sel: usize,
    emoji_len: usize,
    emoji_sel: usize,
    replying: bool,
)
    requires
        k.ctrl || k.meta,
    ensures
        k.key@ == "ArrowUp"@ ==> key_action_spec(
            k,
            gated,
            writes_draft(k.key@, k.ctrl, k.meta, k.shift),
            mention_len,
            mention_sel,
            emoji_len,
            emoji_sel,
            false,
            replying,
        ) == KeyAction::EditOlder,
        k.key@ == "ArrowUp"@ ==> key_action_spec(
            k,
            gated,
            writes_draft(k.key@, k.ctrl, k.meta, k.shift),
            mention_len,
            mention_sel,
            emoji_len,
            emoji_sel,
            true,
            replying,
        ) == KeyAction::EditOlder,
        k.key@ == "ArrowDown"@ ==> key_action_spec(
            k,
            gated,
            writes_draft(k.key@, k.ctrl, k.meta, k.shift),
            mention_len,
            mention_sel,
            emoji_len,
            emoji_sel,
            true,
            replying,
        ) == KeyAction::EditNewer,
{
    reveal_strlit("ArrowUp");
    reveal_strlit("ArrowDown");
    reveal_strlit("Enter");
    reveal_strlit("Backspace");
    reveal_strlit("Delete");
    reveal_strlit("Escape");
    reveal_strlit("Insert");
    reveal_strlit("v");
    reveal_strlit("V");
    reveal_strlit("x");
    reveal_strlit("X");
    assert("ArrowUp"@.len() == 7);
    assert("ArrowDown"@.len() == 9);
    assert("ArrowDown"@ != "ArrowUp"@);
    assert("ArrowDown"@[0] != "Backspace"@[0]);
    assert("ArrowDown"@ != "Backspace"@);
    assert("ArrowDown"@ != "Enter"@);
    assert("ArrowDown"@ != "Escape"@);
    assert("ArrowUp"@ != "Enter"@);
    assert("ArrowUp"@ != "Escape"@);
}

} // verus!

//! The message actions menu: react and reply for everyone, edit for the
//! author (or anyone, on a message its author opened up), the author's
//! open-it-up toggle, and delete; where it sits on screen; and its keyboard
//! contract.
use vstd::prelude::*;

use crate::context::WriteSession;
use crate::text::str_eq;

verus! {

/// Which items the menu offers for one message.
#[derive(Clone, Copy, PartialEq, Eq, Debug)]
pub struct MenuItems {
    /// Edit: the author, or anyone on a collaborative message.
    pub edit: bool,
    /// The open-it-up toggle: the author only.
    pub toggle_collaborative: bool,
    /// Whether the message is open for anyone to edit now.
    pub collaborative: bool,
    /// Delete: the author's own, or a moderator's where the host said what
    /// removing someone else's message means.
    pub delete: bool,
    /// Delete is the moderator's, handed to the host.
    pub moderator_delete: bool,
}

/// What the menu offers: `is_own` is whether the message is the viewer's,
/// `can_moderate` what the host says of the viewer, `has_moderator_delete`
/// whether the host installed a moderator delete, and `collaborative` the
/// message's own flag (absent reads as closed). Gating here is presentation;
/// the server's write policy decides.
pub fn menu_items(is_own: bool, can_moderate: bool, has_moderator_delete: bool, collaborative: Option<bool>) -> (r:
    MenuItems)
    ensures
        r.collaborative == (collaborative == Some(true)),
        r.edit == (is_own || collaborative == Some(true)),
        r.toggle_collaborative == is_own,
        r.moderator_delete == (!is_own && can_moderate && has_moderator_delete),
        r.delete == (is_own || (can_moderate && has_moderator_delete)),
{
    let is_collaborative = match collaborative {
        Some(b) => b,
        None => false,
    };
    let moderator_delete = !is_own && can_moderate && has_moderator_delete;
    MenuItems {
        edit: is_own || is_collaborative,
        toggle_collaborative: is_own,
        collaborative: is_collaborative,
        delete: is_own || moderator_delete,
        moderator_delete,
    }
}

/// The value the author's toggle writes: the flag flipped.
pub fn toggled_collaborative(collaborative: Option<bool>) -> (r: bool)
    ensures
        r == !(collaborative == Some(true)),
{
    match collaborative {
        Some(b) => !b,
        None => true,
    }
}

/// What pressing Delete does.
#[derive(Clone, Copy, PartialEq, Eq, Debug)]
pub enum DeletePlan {
    /// Someone else's message: hand it to the host's moderator delete, with a
    /// way to close the menu.
    HandToHost,
    /// Someone else's message and no moderator delete installed: nothing.
    Nothing,
    /// The author's own: tombstone it as this reader, and clear its text.
    Tombstone(u128),
    /// The author's own, but nobody can write now.
    NoSession,
}

pub fn delete_plan(is_own: bool, has_moderator_delete: bool, write: WriteSession) -> (r: DeletePlan)
    ensures
        !is_own ==> r == (if has_moderator_delete {
            DeletePlan::HandToHost
        } else {
            DeletePlan::Nothing
        }),
        is_own ==> r == match write {
            WriteSession::Write(me) => DeletePlan::Tombstone(me),
            _ => DeletePlan::NoSession,
        },
{
    if !is_own {
        if has_moderator_delete {
            return DeletePlan::HandToHost;
        }
        return DeletePlan::Nothing;
    }
    match write {
        WriteSession::Write(me) => DeletePlan::Tombstone(me),
        _ => DeletePlan::NoSession,
    }
}

/// The margin the menu keeps from the window's edges.
pub const MENU_MARGIN: i32 = 10;

/// Where the menu opened at (`x`, `y`) with size `width` by `height` sits in
/// a `win_width` by `win_height` window: pulled left and up to stay inside
/// past the right and bottom edges, then at least `MENU_MARGIN` from the left
/// and top.
pub open spec fn menu_position_spec(x: int, y: int, width: int, height: int, win_width: int, win_height: int) -> (int, int) {
    let ax = if x + width > win_width {
        win_width - width - MENU_MARGIN
    } else {
        x
    };
    let ay = if y + height > win_height {
        win_height - height - MENU_MARGIN
    } else {
        y
    };
    (if ax < MENU_MARGIN {
        MENU_MARGIN as int
    } else {
        ax
    }, if ay < MENU_MARGIN {
        MENU_MARGIN as int
    } else {
        ay
    })
}

pub fn menu_position(x: i32, y: i32, width: i32, height: i32, win_width: i32, win_height: i32) -> (r: (i32, i32))
    requires
        i32::MIN <= x + width <= i32::MAX,
        i32::MIN <= y + height <= i32::MAX,
        i32::MIN <= win_width - width - MENU_MARGIN <= i32::MAX,
        i32::MIN <= win_height - height - MENU_MARGIN <= i32::MAX,
    ensures
        (r.0 as int, r.1 as int) == menu_position_spec(
            x as int,
            y as int,
            width as int,
            height as int,
            win_width as int,
            win_height as int,
        ),
        r.0 >= MENU_MARGIN,
        r.1 >= MENU_MARGIN,
        (width >= 0 && height >= 0 && width + 2 * MENU_MARGIN <= win_width && height + 2 * MENU_MARGIN
            <= win_height) ==> r.0 + width <= win_width && r.1 + height <= win_height,
{
    let mut ax = x;
    let mut ay = y;
    if x + width > win_width {
        ax = win_width - width - MENU_MARGIN;
    }
    if y + height > win_height {
        ay = win_height - height - MENU_MARGIN;
    }
    if ax < MENU_MARGIN {
        ax = MENU_MARGIN;
    }
    if ay < MENU_MARGIN {
        ay = MENU_MARGIN;
    }
    (ax, ay)
}

/// What a key in the open menu does.
#[derive(Clone, Copy, PartialEq, Eq, Debug)]
pub enum MenuKey {
    /// Tab: close the menu (and prevent the default).
    Close,
    /// An arrow, Home or End: prevent the default, and focus this item.
    Focus(u32),
    /// An arrow, Home or End with no items: prevent the default, nothing more.
    Stay,
    /// Any other key: let it through (Enter and Space activate the focused
    /// item natively).
    Pass,
}

/// Arrows cycle the `n` items from the focused one (`current`, if any item
/// has focus), Home and End jump, and Tab closes.
pub open spec fn menu_key_spec(key: Seq<char>, n: u32, current: Option<u32>) -> MenuKey {
    if key == "Tab"@ {
        MenuKey::Close
    } else if !(key == "ArrowDown"@ || key == "ArrowUp"@ || key == "Home"@ || key == "End"@) {
        MenuKey::Pass
    } else if n == 0 {
        MenuKey::Stay
    } else if key == "Home"@ {
        MenuKey::Focus(0)
    } else if key == "End"@ {
        MenuKey::Focus((n - 1) as u32)
    } else if key == "ArrowDown"@ {
        MenuKey::Focus(
            match current {
                Some(c) => ((c + 1) % (n as int)) as u32,
                None => 0,
            },
        )
    } else {
        MenuKey::Focus(
            match current {
                Some(c) => ((c + n - 1) % (n as int)) as u32,
                None => (n - 1) as u32,
            },
        )
    }
}

pub fn menu_key(key: &str, n: u32, current: Option<u32>) -> (r: MenuKey)
    requires
        current matches Some(c) ==> c < n && c + n <= u32::MAX,
    ensures
        r == menu_key_spec(key@, n, current),
{
    if str_eq(key, "Tab") {
        return MenuKey::Close;
    }
    if !(str_eq(key, "ArrowDown") || str_eq(key, "ArrowUp") || str_eq(key, "Home") || str_eq(key, "End")) {
        return MenuKey::Pass;
    }
    if n == 0 {
        return MenuKey::Stay;
    }
    if str_eq(key, "Home") {
        return MenuKey::Focus(0);
    }
    if str_eq(key, "End") {
        return MenuKey::Focus(n - 1);
    }
    if str_eq(key, "ArrowDown") {
        return MenuKey::Focus(
            match current {
                Some(c) => (c + 1) % n,
                None => 0,
            },
        );
    }
    MenuKey::Focus(
        match current {
            Some(c) => (c + n - 1) % n,
            None => n - 1,
        },
    )
}

/// Whether a key anywhere in the document dismisses the open menu: Escape,
/// consumed so only the menu closes.
pub fn dismisses_menu(key: &str) -> (r: bool)
    ensures
        r == (key@ == "Escape"@),
{
    str_eq(key, "Escape")
}

/// The menu never runs off the window when it fits in it: wherever it was
/// opened, it ends up at least `MENU_MARGIN` from the left and top and
/// wholly inside the right and bottom edges; pulled in from an edge it runs,
/// it stops `MENU_MARGIN` short of that edge; and where it opened already
/// inside the window (and clear of the left and top margin), it stays put.
pub proof fn law_menu_stays_in_window(x: int, y: int, width: int, height: int, win_width: int, win_height: int)
    requires
        width >= 0,
        height >= 0,
        width + 2 * MENU_MARGIN <= win_width,
        height + 2 * MENU_MARGIN <= win_height,
    ensures
        menu_position_spec(x, y, width, height, win_width, win_height).0 >= MENU_MARGIN,
        menu_position_spec(x, y, width, height, win_width, win_height).1 >= MENU_MARGIN,
        menu_position_spec(x, y, width, height, win_width, win_height).0 + width <= win_width,
        menu_position_spec(x, y, width, height, win_width, win_height).1 + height <= win_height,
        x + width > win_width ==> menu_position_spec(x, y, width, height, win_width, win_height).0 + width
            == win_width - MENU_MARGIN,
        y + height > win_height ==> menu_position_spec(x, y, width, height, win_width, win_height).1 + height
            == win_height - MENU_MARGIN,
        (MENU_MARGIN <= x && x + width <= win_width) ==> menu_position_spec(
            x,
            y,
            width,
            height,
            win_width,
            win_height,
        ).0 == x,
        (MENU_MARGIN <= y && y + height <= win_height) ==> menu_position_spec(
            x,
            y,
            width,
            height,
            win_width,
            win_height,
        ).1 == y,
{
}

} // verus!

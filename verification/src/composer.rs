//! The message box's text logic: finding the `@mention` or `:shortcode`
//! being typed at the caret, completing a typed `:name:`, ranking mention
//! candidates, splicing text at UTF-16 offsets, and deciding what a send does.
//!
//! All indices are UTF-16 code units, the DOM's currency, so emoji and other
//! astral text before an anchor cannot skew the arithmetic; text is decoded
//! per slice, with unpaired surrogates becoming U+FFFD.
use vstd::prelude::*;

use crate::context::WriteSession;
use crate::dm::Member;
use crate::text::{
    all_ws, chars_of, compare_str, from_utf16_lossy, is_blank, is_white_space_code, lex_lt, lemma_lex_asymmetric,
    lemma_lex_irreflexive, lemma_lex_total, lemma_lex_transitive, lowercase, push_char, to_lowercase,
    trim, trimmed, utf16_lossy, white_space_code, is_surrogate, is_high_surrogate, is_low_surrogate, pair_code,
};

verus! {

/// Where a composed message goes. Everything above the send is identical for
/// a room and a direct conversation; only the create differs.
#[derive(Clone, Copy, PartialEq, Eq, Debug)]
pub enum ComposerTarget {
    /// A room, by id.
    Room(u128),
    /// A private conversation, by the other participant's id: a conversation
    /// is keyed on its pair, and the row to write into is resolved at send
    /// time.
    Dm { partner: u128 },
}

/// How far back from the caret the `@` of a mention draft is looked for.
pub const MENTION_SCAN_MAX: usize = 48;

/// How far back from the caret the `:` of a shortcode is looked for.
pub const EMOJI_SCAN_MAX: usize = 32;

/// At most this many candidates in the mention popup.
pub const MENTION_POPUP_MAX: usize = 8;

/// An in-progress `@mention`: the offset of the `@` and the text between it
/// and the caret.
#[derive(Clone, PartialEq, Eq, Debug)]
pub struct MentionDraft {
    pub start_utf16: usize,
    pub query: String,
}

/// An in-progress `:shortcode`: the offset of the opening `:` and the text
/// between it and the caret.
#[derive(Clone, PartialEq, Eq, Debug)]
pub struct EmojiDraft {
    pub start_utf16: usize,
    pub query: String,
}

/// The caret, clamped to the text.
pub open spec fn clamp(caret: int, len: int) -> int {
    if caret < len {
        caret
    } else {
        len
    }
}

/// A code unit that is whitespace. No surrogate half is.
pub open spec fn ws_unit(u: u16) -> bool {
    white_space_code(u as int)
}

/// Offset `s` begins a word: the start of the text, or after whitespace.
pub open spec fn word_start(units: Seq<u16>, s: int) -> bool {
    s == 0 || ws_unit(units[s - 1])
}

/// What ends the backward scan for a mention: whitespace, or an `@`.
pub open spec fn mention_stop(u: u16) -> bool {
    ws_unit(u) || u == 0x40
}

/// `s` is the `@` of the mention being typed at `caret`: an `@` at a word
/// start, at most `MENTION_SCAN_MAX` units back, with no whitespace and no
/// other `@` between it and the caret.
pub open spec fn mention_at(units: Seq<u16>, caret: int, s: int) -> bool {
    &&& 0 <= s < caret <= units.len()
    &&& caret - s <= MENTION_SCAN_MAX
    &&& units[s] == 0x40
    &&& word_start(units, s)
    &&& forall|k: int| s < k < caret ==> !mention_stop(#[trigger] units[k])
}

/// At most one offset is the anchor of a mention draft.
pub proof fn law_mention_anchor_unique(units: Seq<u16>, caret: int, s: int, t: int)
    requires
        mention_at(units, caret, s),
        mention_at(units, caret, t),
    ensures
        s == t,
{
    if s < t {
        assert(mention_stop(units[t]));
    } else if t < s {
        assert(mention_stop(units[s]));
    }
}

/// The mention being typed at `caret` (clamped to the text), if any.
pub fn current_mention_draft(units: &[u16], caret: usize) -> (r: Option<MentionDraft>)
    ensures
        ({
            let c = clamp(caret as int, units@.len() as int);
            match r {
                Some(d) => mention_at(units@, c, d.start_utf16 as int) && d.query@ == utf16_lossy(
                    units@.subrange(d.start_utf16 + 1, c),
                ),
                None => forall|s: int| !mention_at(units@, c, s),
            }
        }),
{
    let c = if caret < units.len() {
        caret
    } else {
        units.len()
    };
    let mut i = c;
    while i > 0 && c - i < MENTION_SCAN_MAX
        invariant
            i <= c <= units@.len(),
            c == clamp(caret as int, units@.len() as int),
            forall|k: int| i <= k < c ==> !mention_stop(#[trigger] units@[k]),
        decreases i,
    {
        let u = units[i - 1];
        if is_white_space_code(u as u32) {
            proof {
                assert forall|s: int| !mention_at(units@, c as int, s) by {
                    if mention_at(units@, c as int, s) && s < i - 1 {
                        assert(mention_stop(units@[i - 1]));
                    }
                }
            }
            return None;
        }
        if u == 0x40 {
            let at_word_start = i == 1 || is_white_space_code(units[i - 2] as u32);
            if !at_word_start {
                proof {
                    assert forall|s: int| !mention_at(units@, c as int, s) by {
                        if mention_at(units@, c as int, s) && s < i - 1 {
                            assert(mention_stop(units@[i - 1]));
                        }
                    }
                }
                return None;
            }
            let query = from_utf16_lossy(units, i, c);
            return Some(MentionDraft { start_utf16: i - 1, query });
        }
        i -= 1;
    }
    proof {
        assert forall|s: int| !mention_at(units@, c as int, s) by {
            if mention_at(units@, c as int, s) && s >= i {
                assert(mention_stop(units@[s]));
            }
        }
    }
    None
}

/// The two popups never open together: no caret has both a mention draft
/// and a shortcode draft, because each trigger breaks the other's scan (an
/// `@` is no shortcode character, and a `:` inside a mention draft is never
/// at a word start).
pub proof fn law_drafts_exclusive(units: Seq<u16>, caret: int, s: int, t: int)
    ensures
        !(mention_at(units, caret, s) && emoji_at(units, caret, t)),
{
    if mention_at(units, caret, s) && emoji_at(units, caret, t) {
        if s > t {
            assert(shortcode_code(units[s] as int));
        } else if t > s {
            if t - 1 > s {
                assert(!mention_stop(units[t - 1]));
            }
            assert(!word_start(units, t));
        }
    }
}

/// The characters a shortcode may contain: ASCII letters and digits, `_`,
/// `+` and `-` (for `:+1:` and `:-1:`). Uppercase is tolerated while typing.
pub open spec fn shortcode_code(c: int) -> bool {
    ||| 0x30 <= c <= 0x39
    ||| 0x41 <= c <= 0x5A
    ||| 0x61 <= c <= 0x7A
    ||| c == 0x5F
    ||| c == 0x2B
    ||| c == 0x2D
}

/// Whether `c` may stand in a shortcode.
pub fn is_shortcode_char(c: char) -> (r: bool)
    ensures
        r == shortcode_code(c as int),
{
    ('0' <= c && c <= '9') || ('A' <= c && c <= 'Z') || ('a' <= c && c <= 'z') || c == '_' || c == '+'
        || c == '-'
}

fn is_shortcode_unit(u: u16) -> (r: bool)
    ensures
        r == shortcode_code(u as int),
{
    (0x30 <= u && u <= 0x39) || (0x41 <= u && u <= 0x5A) || (0x61 <= u && u <= 0x7A) || u == 0x5F || u
        == 0x2B || u == 0x2D
}

/// `s` is the opening `:` of the shortcode being typed at `caret`: a `:` at
/// a word start, at most `EMOJI_SCAN_MAX` units back, with only shortcode
/// characters between it and the caret.
pub open spec fn emoji_at(units: Seq<u16>, caret: int, s: int) -> bool {
    &&& 0 <= s < caret <= units.len()
    &&& caret - s <= EMOJI_SCAN_MAX
    &&& units[s] == 0x3A
    &&& word_start(units, s)
    &&& forall|k: int| s < k < caret ==> shortcode_code(#[trigger] units[k] as int)
}

/// At most one offset is the opening of a shortcode draft.
pub proof fn law_emoji_anchor_unique(units: Seq<u16>, caret: int, s: int, t: int)
    requires
        emoji_at(units, caret, s),
        emoji_at(units, caret, t),
    ensures
        s == t,
{
    if s < t {
        assert(shortcode_code(units[t] as int));
    } else if t < s {
        assert(shortcode_code(units[s] as int));
    }
}

/// The shortcode being typed at `caret` (clamped to the text), if any: one
/// with at least two characters after its colon, so a lone `:` or a `:)`
/// stays quiet; clock times and URLs fail the word-start rule.
pub fn current_emoji_draft(units: &[u16], caret: usize) -> (r: Option<EmojiDraft>)
    ensures
        ({
            let c = clamp(caret as int, units@.len() as int);
            match r {
                Some(d) => emoji_at(units@, c, d.start_utf16 as int) && c - d.start_utf16 >= 3
                    && d.query@ == utf16_lossy(units@.subrange(d.start_utf16 + 1, c)),
                None => forall|s: int| emoji_at(units@, c, s) ==> c - s < 3,
            }
        }),
{
    let c = if caret < units.len() {
        caret
    } else {
        units.len()
    };
    let mut i = c;
    while i > 0 && c - i < EMOJI_SCAN_MAX
        invariant
            i <= c <= units@.len(),
            c == clamp(caret as int, units@.len() as int),
            forall|k: int| i <= k < c ==> shortcode_code(#[trigger] units@[k] as int),
        decreases i,
    {
        let u = units[i - 1];
        if u == 0x3A {
            let at_word_start = i == 1 || is_white_space_code(units[i - 2] as u32);
            if !at_word_start {
                proof {
                    assert forall|s: int| emoji_at(units@, c as int, s) implies c - s < 3 by {
                        if s < i - 1 {
                            assert(shortcode_code(units@[i - 1] as int));
                        } else if s >= i {
                            assert(shortcode_code(units@[s] as int));
                        }
                    }
                }
                return None;
            }
            if c - i >= 2 {
                let query = from_utf16_lossy(units, i, c);
                return Some(EmojiDraft { start_utf16: i - 1, query });
            } else {
                proof {
                    assert forall|s: int| emoji_at(units@, c as int, s) implies c - s < 3 by {
                        if s < i - 1 {
                            assert(shortcode_code(units@[i - 1] as int));
                        } else if s >= i {
                            assert(shortcode_code(units@[s] as int));
                        }
                    }
                }
                return None;
            }
        }
        if !is_shortcode_unit(u) {
            proof {
                assert forall|s: int| emoji_at(units@, c as int, s) implies c - s < 3 by {
                    if s < i - 1 {
                        assert(shortcode_code(units@[i - 1] as int));
                    } else if s >= i {
                        assert(shortcode_code(units@[s] as int));
                    }
                }
            }
            return None;
        }
        i -= 1;
    }
    proof {
        assert forall|s: int| emoji_at(units@, c as int, s) implies c - s < 3 by {
            if s >= i {
                assert(shortcode_code(units@[s] as int));
            }
        }
    }
    None
}

/// `s` opens a completed `:name:` whose closing colon ends at `caret`: the
/// same word-start rule as the draft, and a name of at least one character.
pub open spec fn completed_at(units: Seq<u16>, caret: int, s: int) -> bool {
    &&& 3 <= caret <= units.len()
    &&& units[caret - 1] == 0x3A
    &&& 0 <= s <= caret - 3
    &&& caret - s <= EMOJI_SCAN_MAX
    &&& units[s] == 0x3A
    &&& word_start(units, s)
    &&& forall|k: int| s < k < caret - 1 ==> shortcode_code(#[trigger] units[k] as int)
}

/// A completed `:name:` ending exactly at `caret`: the offset of its opening
/// colon and the name between the colons. An empty name (`::`) never matches.
pub fn completed_shortcode(units: &[u16], caret: usize) -> (r: Option<(usize, String)>)
    ensures
        match r {
            Some((s, name)) => completed_at(units@, caret as int, s as int) && name@ == utf16_lossy(
                units@.subrange(s + 1, caret - 1),
            ),
            None => forall|s: int| !completed_at(units@, caret as int, s),
        },
{
    if caret < 3 || caret > units.len() || units[caret - 1] != 0x3A {
        return None;
    }
    let mut i = caret - 1;
    while i > 0 && caret - i < EMOJI_SCAN_MAX
        invariant
            3 <= caret <= units@.len(),
            units@[caret - 1] == 0x3A,
            i <= caret - 1,
            forall|k: int| i <= k < caret - 1 ==> shortcode_code(#[trigger] units@[k] as int),
        decreases i,
    {
        let u = units[i - 1];
        if u == 0x3A {
            let at_word_start = i == 1 || is_white_space_code(units[i - 2] as u32);
            if i == caret - 1 || !at_word_start {
                proof {
                    assert forall|s: int| !completed_at(units@, caret as int, s) by {
                        if completed_at(units@, caret as int, s) {
                            if s < i - 1 {
                                assert(shortcode_code(units@[i - 1] as int));
                            } else if s >= i {
                                assert(shortcode_code(units@[s] as int));
                            }
                        }
                    }
                }
                return None;
            }
            let name = from_utf16_lossy(units, i, caret - 1);
            return Some((i - 1, name));
        }
        if !is_shortcode_unit(u) {
            proof {
                assert forall|s: int| !completed_at(units@, caret as int, s) by {
                    if completed_at(units@, caret as int, s) {
                        if s < i - 1 {
                            assert(shortcode_code(units@[i - 1] as int));
                        } else if s >= i {
                            assert(shortcode_code(units@[s] as int));
                        }
                    }
                }
            }
            return None;
        }
        i -= 1;
    }
    proof {
        assert forall|s: int| !completed_at(units@, caret as int, s) by {
            if completed_at(units@, caret as int, s) && s >= i {
                assert(shortcode_code(units@[s] as int));
            }
        }
    }
    None
}

/// `q` occurs in `s` at some offset.
pub open spec fn has_infix(s: Seq<char>, q: Seq<char>) -> bool {
    exists|i: int| 0 <= i && i + q.len() <= s.len() && #[trigger] s.subrange(i, i + q.len()) == q
}

/// How a display name matches a mention query, given both lowercased:
/// `Some(false)` for a prefix match, `Some(true)` for a match elsewhere,
/// `None` for no match or no name.
pub open spec fn match_tier(name: Seq<char>, lower: Seq<char>, q: Seq<char>) -> Option<bool> {
    if name.len() == 0 {
        None
    } else if q.is_prefix_of(lower) {
        Some(false)
    } else if has_infix(lower, q) {
        Some(true)
    } else {
        None
    }
}

/// The lowercased display names of `members`.
pub open spec fn lowered_names(members: Seq<Member>) -> Seq<Seq<char>> {
    members.map_values(|m: Member| lowercase(m.name@))
}

pub open spec fn views(s: Seq<String>) -> Seq<Seq<char>> {
    s.map_values(|x: String| x@)
}

/// Member `m` is offered for the lowercased query `q`, `lowers` holding the
/// members' lowercased names.
pub open spec fn eligible(members: Seq<Member>, lowers: Seq<Seq<char>>, q: Seq<char>, m: int) -> bool {
    0 <= m < members.len() && m < lowers.len() && match_tier(members[m].name@, lowers[m], q) is Some
}

/// The popup's order: prefix matches first, then by lowercased name, then
/// by position in the member list.
pub open spec fn mention_before(members: Seq<Member>, lowers: Seq<Seq<char>>, q: Seq<char>, a: int, b: int) -> bool {
    let ta = match_tier(members[a].name@, lowers[a], q)->0;
    let tb = match_tier(members[b].name@, lowers[b], q)->0;
    (!ta && tb) || (ta == tb && (lex_lt(lowers[a], lowers[b]) || (lowers[a] == lowers[b] && a < b)))
}

/// The popup's order is a strict total order on the offered members.
pub proof fn lemma_mention_order(members: Seq<Member>, lowers: Seq<Seq<char>>, q: Seq<char>, a: int, b: int, c: int)
    requires
        eligible(members, lowers, q, a),
        eligible(members, lowers, q, b),
        eligible(members, lowers, q, c),
    ensures
        !mention_before(members, lowers, q, a, a),
        a != b ==> mention_before(members, lowers, q, a, b) || mention_before(members, lowers, q, b, a),
        mention_before(members, lowers, q, a, b) ==> !mention_before(members, lowers, q, b, a),
        mention_before(members, lowers, q, a, b) && mention_before(members, lowers, q, b, c) ==> mention_before(
            members,
            lowers,
            q,
            a,
            c,
        ),
{
    lemma_lex_irreflexive(lowers[a]);
    lemma_lex_total(lowers[a], lowers[b]);
    lemma_lex_asymmetric(lowers[a], lowers[b]);
    lemma_lex_transitive(lowers[a], lowers[b], lowers[c]);
    lemma_lex_asymmetric(lowers[b], lowers[a]);
}

/// `out` is what the popup lists, with `picks` the members' positions: at
/// most `MENTION_POPUP_MAX` offered members, in popup order, and no offered
/// member left out unless the popup is full of ones that come before it.
pub open spec fn candidates_are(
    members: Seq<Member>,
    lowers: Seq<Seq<char>>,
    q: Seq<char>,
    out: Seq<Member>,
    picks: Seq<int>,
) -> bool {
    &&& picks.len() == out.len()
    &&& out.len() <= MENTION_POPUP_MAX
    &&& forall|k: int|
        0 <= k < picks.len() ==> eligible(members, lowers, q, #[trigger] picks[k]) && out[k].id == members[picks[k]].id
            && out[k].name@ == members[picks[k]].name@
    &&& forall|k: int, l: int|
        0 <= k < l < picks.len() ==> mention_before(members, lowers, q, #[trigger] picks[k], #[trigger] picks[l])
    &&& forall|m: int|
        eligible(members, lowers, q, m) && !picks.contains(m) ==> picks.len() == MENTION_POPUP_MAX && forall|k: int|
            0 <= k < picks.len() ==> mention_before(members, lowers, q, #[trigger] picks[k], m)
}

fn chars_match_at(s: &[char], p: &[char], at: usize) -> (r: bool)
    requires
        at + p@.len() <= s@.len(),
    ensures
        r == (s@.subrange(at as int, at + p@.len()) == p@),
{
    let n = s.len();
    let mut k: usize = 0;
    while k < p.len()
        invariant
            n == s@.len(),
            at + p@.len() <= n,
            k <= p@.len(),
            forall|j: int| 0 <= j < k ==> s@[at + j] == p@[j],
        decreases p.len() - k,
    {
        if s[at + k] != p[k] {
            assert(s@.subrange(at as int, at + p@.len())[k as int] != p@[k as int]);
            return false;
        }
        k += 1;
    }
    assert(s@.subrange(at as int, at + p@.len()) =~= p@);
    true
}

fn chars_prefix(s: &[char], p: &[char]) -> (r: bool)
    ensures
        r == p@.is_prefix_of(s@),
{
    if p.len() > s.len() {
        return false;
    }
    chars_match_at(s, p, 0)
}

fn chars_infix(s: &[char], p: &[char]) -> (r: bool)
    ensures
        r == has_infix(s@, p@),
{
    if p.len() > s.len() {
        return false;
    }
    if p.len() == 0 {
        assert(s@.subrange(0, 0int + p@.len()) =~= p@);
        return true;
    }
    let n = s.len();
    let last = n - p.len();
    let mut i: usize = 0;
    while i <= last
        invariant
            n == s@.len(),
            last + p@.len() == n,
            p@.len() > 0,
            i <= last + 1,
            forall|j: int| 0 <= j < i ==> #[trigger] s@.subrange(j, j + p@.len()) != p@,
        decreases last + 1 - i,
    {
        if chars_match_at(s, p, i) {
            return true;
        }
        i += 1;
    }
    false
}

/// The members offered for the lowercased query `q`, in member order: their
/// positions and tiers.
fn mention_entries(members: &[Member], lowers: &[String], q: &str) -> (r: (Vec<usize>, Vec<bool>))
    requires
        lowers@.len() == members@.len(),
    ensures
        r.0@.len() == r.1@.len(),
        forall|e: int|
            0 <= e < r.0@.len() ==> eligible(members@, views(lowers@), q@, #[trigger] r.0@[e] as int) && r.1@[e]
                == match_tier(members@[r.0@[e] as int].name@, views(lowers@)[r.0@[e] as int], q@)->0,
        forall|e: int, f: int| 0 <= e < f < r.0@.len() ==> #[trigger] r.0@[e] < #[trigger] r.0@[f],
        forall|m: int|
            eligible(members@, views(lowers@), q@, m) ==> exists|e: int| 0 <= e < r.0@.len() && #[trigger] r.0@[e] == m,
{
    let ghost lw = views(lowers@);
    let qc = chars_of(q);
    let mut idxs: Vec<usize> = Vec::new();
    let mut tiers: Vec<bool> = Vec::new();
    let mut m: usize = 0;
    while m < members.len()
        invariant
            m <= members@.len(),
            lowers@.len() == members@.len(),
            lw == views(lowers@),
            qc@ == q@,
            idxs@.len() == tiers@.len(),
            forall|e: int|
                0 <= e < idxs@.len() ==> #[trigger] idxs@[e] < m && eligible(members@, lw, q@, idxs@[e] as int)
                    && tiers@[e] == match_tier(members@[idxs@[e] as int].name@, lw[idxs@[e] as int], q@)->0,
            forall|e: int, f: int| 0 <= e < f < idxs@.len() ==> #[trigger] idxs@[e] < #[trigger] idxs@[f],
            forall|mm: int|
                0 <= mm < m && eligible(members@, lw, q@, mm) ==> exists|e: int| 0 <= e < idxs@.len() && #[trigger] idxs@[e] == mm,
        decreases members.len() - m,
    {
        let name = &members[m].name;
        assert(lw[m as int] == lowers@[m as int]@);
        if name.unicode_len() != 0 {
            let lc = chars_of(lowers[m].as_str());
            let tier: Option<bool> = if chars_prefix(lc.as_slice(), qc.as_slice()) {
                Some(false)
            } else if chars_infix(lc.as_slice(), qc.as_slice()) {
                Some(true)
            } else {
                None
            };
            if let Some(t) = tier {
                let ghost before = idxs@;
                idxs.push(m);
                tiers.push(t);
                proof {
                    assert(idxs@[idxs@.len() - 1] == m);
                    assert forall|mm: int|
                        0 <= mm < m + 1 && eligible(members@, lw, q@, mm) implies exists|e: int|
                            0 <= e < idxs@.len() && #[trigger] idxs@[e] == mm by {
                        if mm < m {
                            let e = choose|e: int| 0 <= e < before.len() && #[trigger] before[e] == mm;
                            assert(idxs@[e] == before[e]);
                        } else {
                            assert(idxs@[idxs@.len() - 1] == mm);
                        }
                    }
                }
            } else {
                proof {
                    assert(!eligible(members@, lw, q@, m as int));
                }
            }
        } else {
            proof {
                assert(!eligible(members@, lw, q@, m as int));
            }
        }
        m += 1;
    }
    (idxs, tiers)
}

/// Entry `e` comes after the last one picked (every entry does before the
/// first pick).
spec fn after_last(
    members: Seq<Member>,
    lowers: Seq<Seq<char>>,
    q: Seq<char>,
    idxs: Seq<usize>,
    picked: Seq<usize>,
    e: int,
) -> bool {
    picked.len() == 0 || mention_before(members, lowers, q, idxs[picked.last() as int] as int, idxs[e] as int)
}

spec fn is_picked(p: Seq<usize>, e: int) -> bool {
    exists|k: int| 0 <= k < p.len() && p[k] == e
}

/// When no entry is left after the last pick, every entry has been picked.
proof fn lemma_all_picked(members: Seq<Member>, lowers: Seq<Seq<char>>, q: Seq<char>, idxs: Seq<usize>, picked: Seq<usize>)
    requires
        forall|k: int| 0 <= k < picked.len() ==> #[trigger] picked[k] < idxs.len(),
        forall|e: int|
            #![trigger after_last(members, lowers, q, idxs, picked, e)]
            0 <= e < idxs.len() ==> !after_last(members, lowers, q, idxs, picked, e),
        forall|e: int|
            #![trigger idxs[e]]
            0 <= e < idxs.len() && !is_picked(picked, e) ==> forall|k: int|
                0 <= k < picked.len() ==> mention_before(
                    members,
                    lowers,
                    q,
                    idxs[#[trigger] picked[k] as int] as int,
                    idxs[e] as int,
                ),
    ensures
        !exists|e: int| #![trigger is_picked(picked, e)] 0 <= e < idxs.len() && !is_picked(picked, e),
{
    if exists|e: int| #![trigger is_picked(picked, e)] 0 <= e < idxs.len() && !is_picked(picked, e) {
        let e = choose|e: int| #![trigger is_picked(picked, e)] 0 <= e < idxs.len() && !is_picked(picked, e);
        if picked.len() > 0 {
            let k = picked.len() - 1;
            assert(mention_before(members, lowers, q, idxs[picked[k] as int] as int, idxs[e] as int));
        }
        assert(!after_last(members, lowers, q, idxs, picked, e));
    }
}

fn entry_before(ta: bool, la: &String, ia: usize, tb: bool, lb: &String, ib: usize) -> (r: bool)
    ensures
        r == ((!ta && tb) || (ta == tb && (lex_lt(la@, lb@) || (la@ == lb@ && ia < ib)))),
{
    if !ta && tb {
        return true;
    }
    if ta != tb {
        return false;
    }
    let c = compare_str(la.as_str(), lb.as_str());
    c < 0 || (c == 0 && ia < ib)
}

/// The mention popup over `members` for `lowered_query`, `lowers` holding
/// the members' lowercased display names: prefix matches first, then
/// substring matches, alphabetically within each tier and in member order
/// among equal names; at most `MENTION_POPUP_MAX`. An empty query lists
/// everyone with a name.
pub fn rank_mentions(members: &[Member], lowers: &[String], lowered_query: &str) -> (r: Vec<Member>)
    requires
        lowers@.len() == members@.len(),
    ensures
        exists|picks: Seq<int>| candidates_are(members@, views(lowers@), lowered_query@, r@, picks),
{
    let ghost lw = views(lowers@);
    let ghost q = lowered_query@;
    let (idxs, tiers) = mention_entries(members, lowers, lowered_query);
    let n = idxs.len();
    let mut picked: Vec<usize> = Vec::new();
    let mut done = false;
    while !done && picked.len() < MENTION_POPUP_MAX
        invariant
            n == idxs@.len() == tiers@.len(),
            lowers@.len() == members@.len(),
            lw == views(lowers@),
            q == lowered_query@,
            forall|e: int|
                0 <= e < n ==> eligible(members@, lw, q, #[trigger] idxs@[e] as int) && tiers@[e] == match_tier(
                    members@[idxs@[e] as int].name@,
                    lw[idxs@[e] as int],
                    q,
                )->0,
            forall|e: int, f: int| 0 <= e < f < n ==> #[trigger] idxs@[e] < #[trigger] idxs@[f],
            picked@.len() <= MENTION_POPUP_MAX,
            forall|k: int| 0 <= k < picked@.len() ==> #[trigger] picked@[k] < n,
            forall|k: int, l: int|
                0 <= k < l < picked@.len() ==> mention_before(
                    members@,
                    lw,
                    q,
                    idxs@[#[trigger] picked@[k] as int] as int,
                    idxs@[#[trigger] picked@[l] as int] as int,
                ),
            forall|e: int|
                #![trigger idxs@[e]]
                0 <= e < n && !is_picked(picked@, e) ==> forall|k: int|
                    0 <= k < picked@.len() ==> mention_before(
                        members@,
                        lw,
                        q,
                        idxs@[#[trigger] picked@[k] as int] as int,
                        idxs@[e] as int,
                    ),
            done ==> !exists|e: int| #![trigger is_picked(picked@, e)] 0 <= e < n && !is_picked(picked@, e),
        decreases MENTION_POPUP_MAX - picked@.len() + (if done {
            0int
        } else {
            1int
        }),
    {
        let mut best: Option<usize> = None;
        let mut j: usize = 0;
        while j < n
            invariant
                n == idxs@.len() == tiers@.len(),
                lowers@.len() == members@.len(),
                lw == views(lowers@),
                q == lowered_query@,
                j <= n,
                forall|e: int|
                    0 <= e < n ==> eligible(members@, lw, q, #[trigger] idxs@[e] as int) && tiers@[e]
                        == match_tier(members@[idxs@[e] as int].name@, lw[idxs@[e] as int], q)->0,
                forall|e: int, f: int| 0 <= e < f < n ==> #[trigger] idxs@[e] < #[trigger] idxs@[f],
                forall|k: int| 0 <= k < picked@.len() ==> #[trigger] picked@[k] < n,
                best matches Some(b) ==> b < j && after_last(members@, lw, q, idxs@, picked@, b as int),
                best matches Some(b) ==> forall|e: int|
                    0 <= e < j && #[trigger] after_last(members@, lw, q, idxs@, picked@, e) ==> e == b || mention_before(members@, lw, q, idxs@[b as int] as int, idxs@[e] as int),
                best is None ==> forall|e: int|
                    #![trigger after_last(members@, lw, q, idxs@, picked@, e)]
                    0 <= e < j ==> !after_last(members@, lw, q, idxs@, picked@, e),
            decreases n - j,
        {
            let candidate = if picked.len() == 0 {
                true
            } else {
                let p = picked[picked.len() - 1];
                proof {
                    assert(lw[idxs@[p as int] as int] == lowers@[idxs@[p as int] as int]@);
                    assert(lw[idxs@[j as int] as int] == lowers@[idxs@[j as int] as int]@);
                }
                entry_before(tiers[p], &lowers[idxs[p]], idxs[p], tiers[j], &lowers[idxs[j]], idxs[j])
            };
            if candidate {
                match best {
                    None => {
                        best = Some(j);
                    },
                    Some(b) => {
                        proof {
                            assert(lw[idxs@[b as int] as int] == lowers@[idxs@[b as int] as int]@);
                            assert(lw[idxs@[j as int] as int] == lowers@[idxs@[j as int] as int]@);
                        }
                        if entry_before(tiers[j], &lowers[idxs[j]], idxs[j], tiers[b], &lowers[idxs[b]], idxs[b]) {
                            proof {
                                assert forall|e: int|
                                    0 <= e < j + 1 && #[trigger] after_last(members@, lw, q, idxs@, picked@, e) implies e == j || mention_before(
                                    members@,
                                    lw,
                                    q,
                                    idxs@[j as int] as int,
                                    idxs@[e] as int,
                                ) by {
                                    if e < j && e != b {
                                        lemma_mention_order(
                                            members@,
                                            lw,
                                            q,
                                            idxs@[j as int] as int,
                                            idxs@[b as int] as int,
                                            idxs@[e] as int,
                                        );
                                    }
                                }
                            }
                            best = Some(j);
                        } else {
                            proof {
                                if j != b {
                                    assert(idxs@[b as int] < idxs@[j as int]);
                                }
                                lemma_mention_order(
                                    members@,
                                    lw,
                                    q,
                                    idxs@[j as int] as int,
                                    idxs@[b as int] as int,
                                    idxs@[b as int] as int,
                                );
                            }
                        }
                    },
                }
            }
            j += 1;
        }
        match best {
            None => {
                proof {
                    lemma_all_picked(members@, lw, q, idxs@, picked@);
                }
                done = true;
            },
            Some(b) => {
                let ghost old_picked = picked@;
                proof {
                    if is_picked(old_picked, b as int) {
                        let k = choose|k: int| 0 <= k < old_picked.len() && old_picked[k] == b;
                        let last = old_picked.len() - 1;
                        lemma_mention_order(
                            members@,
                            lw,
                            q,
                            idxs@[old_picked[last] as int] as int,
                            idxs@[b as int] as int,
                            idxs@[b as int] as int,
                        );
                        if k < last {
                            assert(mention_before(
                                members@,
                                lw,
                                q,
                                idxs@[old_picked[k] as int] as int,
                                idxs@[old_picked[last] as int] as int,
                            ));
                        }
                    }
                }
                picked.push(b);
                proof {
                    assert forall|k: int, l: int|
                        0 <= k < l < picked@.len() implies mention_before(
                        members@,
                        lw,
                        q,
                        idxs@[#[trigger] picked@[k] as int] as int,
                        idxs@[#[trigger] picked@[l] as int] as int,
                    ) by {
                        if l < old_picked.len() {
                            assert(picked@[k] == old_picked[k] && picked@[l] == old_picked[l]);
                        } else {
                            assert(picked@[k] == old_picked[k]);
                        }
                    }
                    assert forall|e: int|
                        #![trigger idxs@[e]]
                        0 <= e < n && !is_picked(picked@, e) implies forall|k: int|
                            0 <= k < picked@.len() ==> mention_before(
                                members@,
                                lw,
                                q,
                                idxs@[#[trigger] picked@[k] as int] as int,
                                idxs@[e] as int,
                            ) by {
                        assert(!is_picked(old_picked, e)) by {
                            if is_picked(old_picked, e) {
                                let k = choose|k: int| 0 <= k < old_picked.len() && old_picked[k] == e;
                                assert(picked@[k] == e);
                            }
                        }
                        assert(picked@[picked@.len() - 1] == b);
                        assert(e != b as int);
                        if old_picked.len() > 0 {
                            assert(mention_before(
                                members@,
                                lw,
                                q,
                                idxs@[old_picked[old_picked.len() - 1] as int] as int,
                                idxs@[e] as int,
                            ));
                        }
                        assert(after_last(members@, lw, q, idxs@, old_picked, e));
                        assert(mention_before(members@, lw, q, idxs@[b as int] as int, idxs@[e] as int));
                        assert forall|k: int| 0 <= k < picked@.len() implies mention_before(
                            members@,
                            lw,
                            q,
                            idxs@[#[trigger] picked@[k] as int] as int,
                            idxs@[e] as int,
                        ) by {
                            if k < old_picked.len() {
                                assert(picked@[k] == old_picked[k]);
                            }
                        }
                    }
                }
            },
        }
    }
    let mut out: Vec<Member> = Vec::new();
    let mut k: usize = 0;
    while k < picked.len()
        invariant
            k <= picked@.len(),
            n == idxs@.len(),
            forall|q: int| 0 <= q < picked@.len() ==> #[trigger] picked@[q] < n,
            forall|e: int| 0 <= e < n ==> #[trigger] idxs@[e] < members@.len(),
            out@.len() == k,
            forall|q: int|
                0 <= q < k ==> (#[trigger] out@[q]).id == members@[idxs@[picked@[q] as int] as int].id
                    && out@[q].name@ == members@[idxs@[picked@[q] as int] as int].name@,
        decreases picked.len() - k,
    {
        let ghost before = out@;
        out.push(members[idxs[picked[k]]].clone_member());
        proof {
            assert forall|q: int| 0 <= q < k + 1 implies (#[trigger] out@[q]).id == members@[idxs@[picked@[q] as int] as int].id
                && out@[q].name@ == members@[idxs@[picked@[q] as int] as int].name@ by {
                if q < k {
                    assert(out@[q] == before[q]);
                }
            }
        }
        k += 1;
    }
    proof {
        let picks = Seq::new(picked@.len(), |q: int| idxs@[picked@[q] as int] as int);
        assert forall|m: int| eligible(members@, lw, q, m) && !picks.contains(m) implies picks.len()
            == MENTION_POPUP_MAX && forall|k: int|
            0 <= k < picks.len() ==> mention_before(members@, lw, q, #[trigger] picks[k], m) by {
            let e = choose|e: int| 0 <= e < n && #[trigger] idxs@[e] == m;
            if is_picked(picked@, e) {
                let q = choose|q: int| 0 <= q < picked@.len() && picked@[q] == e;
                assert(picks[q] == m);
            }
            assert forall|k: int| 0 <= k < picks.len() implies mention_before(members@, lw, q, #[trigger] picks[k], m) by {
                assert(picks[k] == idxs@[picked@[k] as int] as int);
            }
        }
        assert forall|k: int, l: int| 0 <= k < l < picks.len() implies mention_before(
            members@,
            lw,
            q,
            #[trigger] picks[k],
            #[trigger] picks[l],
        ) by {
            assert(picks[k] == idxs@[picked@[k] as int] as int);
            assert(picks[l] == idxs@[picked@[l] as int] as int);
        }
        assert(candidates_are(members@, lw, q, out@, picks));
    }
    out
}

/// The mention popup for `query` over `members`, both sides compared
/// lowercased (see `rank_mentions`).
pub fn mention_candidates(members: &[Member], query: &str) -> (r: Vec<Member>)
    ensures
        exists|picks: Seq<int>| candidates_are(members@, lowered_names(members@), lowercase(query@), r@, picks),
{
    let mut lowers: Vec<String> = Vec::new();
    let mut i: usize = 0;
    while i < members.len()
        invariant
            i <= members@.len(),
            lowers@.len() == i,
            forall|k: int| 0 <= k < i ==> (#[trigger] lowers@[k])@ == lowercase(members@[k].name@),
        decreases members.len() - i,
    {
        let ghost before = lowers@;
        lowers.push(to_lowercase(members[i].name.as_str()));
        proof {
            assert forall|k: int| 0 <= k < i + 1 implies (#[trigger] lowers@[k])@ == lowercase(members@[k].name@) by {
                if k < i {
                    assert(lowers@[k] == before[k]);
                }
            }
        }
        i += 1;
    }
    let q = to_lowercase(query);
    assert(views(lowers@) =~= lowered_names(members@));
    rank_mentions(members, lowers.as_slice(), q.as_str())
}

/// The tallest the message box grows, in pixels: about eight lines; past it
/// the box scrolls inside instead of eating the timeline.
pub const MAX_COMPOSER_HEIGHT: i32 = 192;

/// The height to fit the message box to its content, and whether it then
/// scrolls inside: the content is the scroll height plus the border
/// (offset height less client height), capped at `MAX_COMPOSER_HEIGHT`.
pub fn composer_height(scroll_height: i32, offset_height: i32, client_height: i32) -> (r: (i32, bool))
    requires
        i32::MIN <= offset_height - client_height <= i32::MAX,
        i32::MIN <= scroll_height + (offset_height - client_height) <= i32::MAX,
    ensures
        ({
            let content = scroll_height + (offset_height - client_height);
            r.0 == (if content < MAX_COMPOSER_HEIGHT {
                content
            } else {
                MAX_COMPOSER_HEIGHT as int
            }) && r.1 == (content > MAX_COMPOSER_HEIGHT)
        }),
{
    let border = offset_height - client_height;
    let content = scroll_height + border;
    let clamped = if content < MAX_COMPOSER_HEIGHT {
        content
    } else {
        MAX_COMPOSER_HEIGHT
    };
    (clamped, content > MAX_COMPOSER_HEIGHT)
}

/// The UTF-16 encoding of a character sequence: one unit below U+10000, a
/// surrogate pair above.
pub open spec fn utf16_encode(s: Seq<char>) -> Seq<u16>
    decreases s.len(),
{
    if s.len() == 0 {
        Seq::empty()
    } else {
        utf16_encode(s.drop_last()) + char_units(s.last() as u32)
    }
}

pub open spec fn char_units(c: u32) -> Seq<u16> {
    if c < 0x10000 {
        seq![c as u16]
    } else {
        seq![(0xD800 + (c - 0x10000) / 0x400) as u16, (0xDC00 + (c - 0x10000) % 0x400) as u16]
    }
}

/// `str::encode_utf16`, collected.
pub fn utf16_units(s: &str) -> (r: Vec<u16>)
    ensures
        r@ == utf16_encode(s@),
{
    let n = s.unicode_len();
    let mut r: Vec<u16> = Vec::new();
    let mut i: usize = 0;
    while i < n
        invariant
            n == s@.len(),
            i <= n,
            r@ == utf16_encode(s@.subrange(0, i as int)),
        decreases n - i,
    {
        let c = s.get_char(i) as u32;
        proof {
            let t = s@.subrange(0, i + 1);
            assert(t.drop_last() =~= s@.subrange(0, i as int));
            assert(t.last() == s@[i as int]);
        }
        if c < 0x10000 {
            r.push(c as u16);
        } else {
            let v = c - 0x10000;
            r.push((0xD800 + v / 0x400) as u16);
            r.push((0xDC00 + v % 0x400) as u16);
        }
        i += 1;
        assert(r@ =~= utf16_encode(s@.subrange(0, i as int)));
    }
    assert(s@.subrange(0, n as int) =~= s@);
    r
}

proof fn lemma_bmp_unit(c: char)
    requires
        (c as u32) < 0x10000,
    ensures
        ((c as u32) as u16) as char == c,
        !is_surrogate((c as u32) as u16),
{
}

proof fn lemma_surrogate_pair(c: char)
    requires
        (c as u32) >= 0x10000,
    ensures
        ({
            let v = (c as u32) - 0x10000;
            let hi = (0xD800 + v / 0x400) as u16;
            let lo = (0xDC00 + v % 0x400) as u16;
            &&& is_high_surrogate(hi)
            &&& is_low_surrogate(lo)
            &&& pair_code(hi, lo) as char == c
        }),
{
}

proof fn lemma_encode_front(s: Seq<char>)
    requires
        s.len() > 0,
    ensures
        utf16_encode(s) == char_units(s[0] as u32) + utf16_encode(s.drop_first()),
    decreases s.len(),
{
    if s.len() == 1 {
        assert(s.drop_last() =~= Seq::<char>::empty());
        assert(s.drop_first() =~= Seq::<char>::empty());
        assert(utf16_encode(s.drop_last()) =~= Seq::<u16>::empty());
        assert(utf16_encode(s.drop_first()) =~= Seq::<u16>::empty());
        assert(s.last() == s[0]);
        assert(utf16_encode(s) =~= char_units(s[0] as u32));
    } else {
        lemma_encode_front(s.drop_last());
        assert(s.drop_last().drop_first() =~= s.drop_first().drop_last());
        assert(s.drop_last()[0] == s[0]);
        assert(s.drop_first().last() == s.last());
        assert(utf16_encode(s) =~= char_units(s[0] as u32) + utf16_encode(s.drop_first()));
    }
}

/// Decoding gives back exactly what was encoded: text spliced into the
/// message box as UTF-16 reads back unchanged, astral characters included.
pub proof fn law_utf16_round_trip(s: Seq<char>)
    ensures
        utf16_lossy(utf16_encode(s)) == s,
    decreases s.len(),
{
    if s.len() == 0 {
        assert(utf16_encode(s) =~= Seq::<u16>::empty());
    } else {
        lemma_encode_front(s);
        law_utf16_round_trip(s.drop_first());
        let c = s[0];
        let u = utf16_encode(s);
        let rest = utf16_encode(s.drop_first());
        if (c as u32) < 0x10000 {
            lemma_bmp_unit(c);
            assert(u[0] == (c as u32) as u16);
            assert(u.drop_first() =~= rest);
        } else {
            let v = (c as u32) - 0x10000;
            let hi = (0xD800 + v / 0x400) as u16;
            let lo = (0xDC00 + v % 0x400) as u16;
            lemma_surrogate_pair(c);
            assert(u[0] == hi && u[1] == lo);
            assert(u.subrange(2, u.len() as int) =~= rest);
        }
        assert(s =~= seq![c] + s.drop_first());
    }
}

/// The text after replacing units `[start, end)` (`end` clamped to the text)
/// with `replacement`, and the caret just past the replacement.
pub open spec fn spliced(units: Seq<u16>, start: int, end: int, replacement: Seq<u16>) -> Seq<u16> {
    let e = clamp(end, units.len() as int);
    units.subrange(0, start) + replacement + units.subrange(e, units.len() as int)
}

/// Splice `replacement` over units `[start, end)` of `units`: the new text,
/// decoded, and the caret after the replacement.
pub fn splice_units(units: &[u16], start: usize, end: usize, replacement: &[u16]) -> (r: (String, u32))
    requires
        start <= clamp(end as int, units@.len() as int),
        start + replacement@.len() <= usize::MAX,
    ensures
        r.0@ == utf16_lossy(spliced(units@, start as int, end as int, replacement@)),
        r.1 == (start + replacement@.len()) as u32,
{
    let e = if end < units.len() {
        end
    } else {
        units.len()
    };
    let mut next: Vec<u16> = Vec::new();
    let mut i: usize = 0;
    while i < start
        invariant
            start <= e <= units@.len(),
            i <= start,
            next@ == units@.subrange(0, i as int),
        decreases start - i,
    {
        next.push(units[i]);
        i += 1;
        assert(next@ =~= units@.subrange(0, i as int));
    }
    let mut k: usize = 0;
    while k < replacement.len()
        invariant
            start <= e <= units@.len(),
            k <= replacement@.len(),
            next@ == units@.subrange(0, start as int) + replacement@.subrange(0, k as int),
        decreases replacement.len() - k,
    {
        next.push(replacement[k]);
        k += 1;
        assert(next@ =~= units@.subrange(0, start as int) + replacement@.subrange(0, k as int));
    }
    assert(replacement@.subrange(0, k as int) =~= replacement@);
    let mut j: usize = e;
    while j < units.len()
        invariant
            start <= e <= j <= units@.len(),
            next@ == units@.subrange(0, start as int) + replacement@ + units@.subrange(e as int, j as int),
        decreases units.len() - j,
    {
        next.push(units[j]);
        j += 1;
        assert(next@ =~= units@.subrange(0, start as int) + replacement@ + units@.subrange(e as int, j as int));
    }
    let caret = (start + replacement.len()) as u32;
    let text = from_utf16_lossy(next.as_slice(), 0, next.len());
    assert(next@.subrange(0, next@.len() as int) =~= next@);
    (text, caret)
}

/// Whether a popup's anchor still stands: the caret (the end of the text
/// when there is no selection, and clamped to the text) is past `start`, and
/// the unit at `start` is still the `marker` that opened the draft. The
/// caret, if so.
pub fn draft_anchor(units: &[u16], caret: Option<usize>, start: usize, marker: u16) -> (r: Option<usize>)
    ensures
        ({
            let c = clamp(
                match caret {
                    Some(c) => c as int,
                    None => units@.len() as int,
                },
                units@.len() as int,
            );
            r == (if start < c && units@[start as int] == marker {
                Some(c as usize)
            } else {
                None::<usize>
            })
        }),
{
    let wanted = match caret {
        Some(c) => c,
        None => units.len(),
    };
    let c = if wanted < units.len() {
        wanted
    } else {
        units.len()
    };
    if start >= c || units[start] != marker {
        return None;
    }
    Some(c)
}

/// What picking `name` from the mention popup writes over the draft: the
/// name after an `@`, and a space. Nothing for a member with no name.
pub fn mention_text(name: &str) -> (r: Option<String>)
    ensures
        name@.len() == 0 <==> r is None,
        r matches Some(t) ==> t@ == seq!['@'] + name@ + seq![' '],
{
    if name.unicode_len() == 0 {
        return None;
    }
    let mut t = String::new();
    push_char(&mut t, '@');
    t.append(name);
    push_char(&mut t, ' ');
    assert(t@ =~= seq!['@'] + name@ + seq![' ']);
    Some(t)
}

/// Whether the send button is live: there is something to send, and the
/// host does not report the transport down.
pub fn can_send(draft: &str, connected: bool) -> (r: bool)
    ensures
        r == (!all_ws(draft@) && connected),
{
    !is_blank(draft) && connected
}

/// Whether `viewer` may save an edit of a message by `author`: a message
/// open to collaborative editing is anyone's; otherwise only its author's.
pub fn edit_allowed(author: Option<u128>, collaborative: Option<bool>, viewer: u128) -> (r: bool)
    ensures
        r == (collaborative == Some(true) || author == Some(viewer)),
{
    let open_to_anyone = match collaborative {
        Some(b) => b,
        None => false,
    };
    if open_to_anyone {
        return true;
    }
    match author {
        Some(a) => a == viewer,
        None => false,
    }
}

/// The message an armed edit targets, as the send reads it.
pub struct EditTarget {
    pub author: Option<u128>,
    pub collaborative: Option<bool>,
    /// The editor text the edit began with (stored mentions decoded).
    pub entry_decoded: String,
}

/// What pressing send does.
#[derive(PartialEq, Eq, Debug)]
pub enum SendPlan {
    /// The draft is blank: nothing.
    Nothing,
    /// Nobody can write: the session asked the host to sign someone in, or
    /// the handshake has ended. The draft stays.
    NoSession,
    /// The armed edit belongs to another reader (a session swap since it was
    /// armed): disarm it and write nothing.
    AbandonEdit,
    /// The editor still shows what the edit began with: commit nothing, and
    /// close the editor with the draft cleared, as a saved edit does.
    Unchanged,
    /// Replace the edited message's text with `text` (the trimmed draft).
    Edit { author: u128, text: String },
    /// Create a message by `author` with `text` (the trimmed draft), clearing
    /// the draft and the armed reply at once.
    Create { author: u128, text: String },
}

/// Decide a send from the draft, the write session and the armed edit.
pub fn plan_send(draft: &str, write: WriteSession, editing: Option<&EditTarget>) -> (r: SendPlan)
    ensures
        all_ws(draft@) ==> r == SendPlan::Nothing,
        !all_ws(draft@) && !(write is Write) ==> r == SendPlan::NoSession,
        !all_ws(draft@) && write is Write ==> ({
            let me = write->0;
            match editing {
                Some(t) => if !edit_allowed_spec(t.author, t.collaborative, me) {
                    r == SendPlan::AbandonEdit
                } else if t.entry_decoded@ == trimmed(draft@) {
                    r == SendPlan::Unchanged
                } else {
                    r matches SendPlan::Edit { author, text } && author == me && text@ == trimmed(draft@)
                },
                None => r matches SendPlan::Create { author, text } && author == me && text@ == trimmed(draft@),
            }
        }),
        r is AbandonEdit <==> (!all_ws(draft@) && write is Write && editing is Some
            && editing->0.collaborative != Some(true) && editing->0.author != Some(write->0)),
        (!all_ws(draft@) && write is Write && editing is Some && editing->0.author == Some(write->0)
            && editing->0.entry_decoded@ != trimmed(draft@)) ==> (r matches SendPlan::Edit { author, text }
            && author == write->0 && text@ == trimmed(draft@)),
{
    if is_blank(draft) {
        return SendPlan::Nothing;
    }
    let me = match write {
        WriteSession::Write(me) => me,
        _ => {
            return SendPlan::NoSession;
        },
    };
    let text = trim(draft);
    match editing {
        Some(t) => {
            if !edit_allowed(t.author, t.collaborative, me) {
                return SendPlan::AbandonEdit;
            }
            if crate::text::str_eq(t.entry_decoded.as_str(), text.as_str()) {
                return SendPlan::Unchanged;
            }
            SendPlan::Edit { author: me, text }
        },
        None => SendPlan::Create { author: me, text },
    }
}

pub open spec fn edit_allowed_spec(author: Option<u128>, collaborative: Option<bool>, viewer: u128) -> bool {
    collaborative == Some(true) || author == Some(viewer)
}

/// Who may save an edit: its author always, whatever the collaborative flag
/// says (a message made private again is still its author's), anyone else
/// only while the message is open to collaborative editing; and a message
/// of unknown author is editable only while open.
pub proof fn law_author_may_always_edit(author: Option<u128>, collaborative: Option<bool>, viewer: u128)
    ensures
        author == Some(viewer) ==> edit_allowed_spec(author, collaborative, viewer),
        collaborative == Some(true) ==> edit_allowed_spec(author, collaborative, viewer),
        !edit_allowed_spec(author, collaborative, viewer) <==> (collaborative != Some(true) && author != Some(
            viewer,
        )),
{
}

/// The draft after a failed create: the failed text goes back, above
/// anything typed since and never over it.
pub fn restore_draft(failed: &str, current: &str) -> (r: String)
    ensures
        r@ == (if all_ws(current@) {
            failed@
        } else {
            failed@ + seq!['\n'] + current@
        }),
{
    if is_blank(current) {
        return String::from_str(failed);
    }
    let mut r = String::from_str(failed);
    push_char(&mut r, '\n');
    r.append(current);
    r
}

/// Whether a failed create re-arms its reply: only if no other reply was
/// chosen meanwhile and no edit began (the chip and an edit exclude each
/// other).
pub fn rearm_reply_after_failure(reply_armed: bool, editing: bool) -> (r: bool)
    ensures
        r == (!reply_armed && !editing),
{
    !reply_armed && !editing
}

/// A timeline message as edit navigation reads it.
#[derive(Clone, Copy, PartialEq, Eq, Debug)]
pub struct NavMessage {
    pub id: u128,
    pub author: Option<u128>,
    pub deleted: Option<bool>,
}

/// A message the viewer wrote and has not deleted: tombstones are not
/// editable.
pub open spec fn own_message(m: NavMessage, viewer: u128) -> bool {
    m.author == Some(viewer) && m.deleted != Some(true)
}

/// Position `i` holds the first message with id `id`.
pub open spec fn first_with_id(msgs: Seq<NavMessage>, id: u128, i: int) -> bool {
    0 <= i < msgs.len() && msgs[i].id == id && forall|j: int| 0 <= j < i ==> msgs[j].id != id
}

/// Where the message being edited stands in the timeline.
pub open spec fn editing_index(msgs: Seq<NavMessage>, editing: Option<u128>) -> Option<int> {
    match editing {
        Some(id) => if exists|i: int| first_with_id(msgs, id, i) {
            Some(choose|i: int| first_with_id(msgs, id, i))
        } else {
            None
        },
        None => None,
    }
}

/// The first position holding the message `id`.
fn position_of(msgs: &[NavMessage], id: u128) -> (r: Option<usize>)
    ensures
        r == (if exists|i: int| first_with_id(msgs@, id, i) {
            Some((choose|i: int| first_with_id(msgs@, id, i)) as usize)
        } else {
            None::<usize>
        }),
{
    let mut i: usize = 0;
    while i < msgs.len()
        invariant
            i <= msgs@.len(),
            forall|j: int| 0 <= j < i ==> msgs@[j].id != id,
        decreases msgs.len() - i,
    {
        if msgs[i].id == id {
            proof {
                assert(first_with_id(msgs@, id, i as int));
                let c = choose|t: int| first_with_id(msgs@, id, t);
                if c < i {
                } else if c > i {
                    assert(msgs@[i as int].id == id);
                }
            }
            return Some(i);
        }
        i += 1;
    }
    None
}

/// Where Cmd/Ctrl+Up and Cmd/Ctrl+Down take the editor.
#[derive(Clone, Copy, PartialEq, Eq, Debug)]
pub enum EditNav {
    /// Nowhere: leave everything as it is.
    Stay,
    /// Edit the message at this position.
    Edit(usize),
    /// Past the newest own message: leave edit mode and clear the draft.
    Exit,
}

/// Walk the viewer's own messages for editing. Backward goes to the nearest
/// own message older than the one being edited (or than the end, when none
/// is); forward, only while editing, to the nearest newer one, and past the
/// newest it leaves edit mode.
#[verifier::loop_isolation(false)]
pub fn navigate_own(msgs: &[NavMessage], viewer: Option<u128>, editing: Option<u128>, backward: bool) -> (r: EditNav)
    ensures
        viewer is None || msgs@.len() == 0 ==> r == EditNav::Stay,
        viewer is Some && msgs@.len() > 0 && backward ==> ({
            let v = viewer->0;
            let start = match editing_index(msgs@, editing) {
                Some(s) => s,
                None => msgs@.len() as int,
            };
            match r {
                EditNav::Edit(i) => i < start && own_message(msgs@[i as int], v) && forall|k: int|
                    i < k < start ==> !own_message(#[trigger] msgs@[k], v),
                EditNav::Stay => forall|k: int| 0 <= k < start ==> !own_message(#[trigger] msgs@[k], v),
                EditNav::Exit => false,
            }
        }),
        viewer is Some && msgs@.len() > 0 && !backward ==> ({
            let v = viewer->0;
            match editing_index(msgs@, editing) {
                None => r == EditNav::Stay,
                Some(s) => match r {
                    EditNav::Edit(i) => s < i < msgs@.len() && own_message(msgs@[i as int], v) && forall|k: int|
                        s < k < i ==> !own_message(#[trigger] msgs@[k], v),
                    EditNav::Exit => forall|k: int| s < k < msgs@.len() ==> !own_message(#[trigger] msgs@[k], v),
                    EditNav::Stay => false,
                },
            }
        }),
{
    let v = match viewer {
        Some(v) => v,
        None => {
            return EditNav::Stay;
        },
    };
    if msgs.len() == 0 {
        return EditNav::Stay;
    }
    let current = match editing {
        Some(id) => position_of(msgs, id),
        None => None,
    };
    assert(current == match editing_index(msgs@, editing) {
        Some(s) => Some(s as usize),
        None => None::<usize>,
    });
    if backward {
        let start = match current {
            Some(c) => c,
            None => msgs.len(),
        };
        let mut i = start;
        while i > 0
            invariant
                i <= start <= msgs@.len(),
                forall|k: int| i <= k < start ==> !own_message(#[trigger] msgs@[k], v),
            decreases i,
        {
            let m = msgs[i - 1];
            let own = match m.author {
                Some(a) => a == v && !matches!(m.deleted, Some(true)),
                None => false,
            };
            if own {
                return EditNav::Edit(i - 1);
            }
            i -= 1;
        }
        EditNav::Stay
    } else {
        match current {
            None => EditNav::Stay,
            Some(s) => {
                let mut i = s + 1;
                while i < msgs.len()
                    invariant
                        s < i <= msgs@.len(),
                        forall|k: int| s < k < i ==> !own_message(#[trigger] msgs@[k], v),
                    decreases msgs.len() - i,
                {
                    let m = msgs[i];
                    let own = match m.author {
                        Some(a) => a == v && !matches!(m.deleted, Some(true)),
                        None => false,
                    };
                    if own {
                        return EditNav::Edit(i);
                    }
                    i += 1;
                }
                EditNav::Exit
            },
        }
    }
}

} // verus!

//! Emoji reactions: the fixed set the pickers offer, the chips under a
//! bubble, and what a toggle writes.
//!
//! Reaction rows are never deleted: the first toggle creates an active row and
//! later toggles flip `active`. Duplicate rows (two first-toggles racing) are
//! tolerated: chips count distinct users, and a toggle flips every matching
//! row to the opposite of "any of them active".
use vstd::prelude::*;

use crate::text::{compare_str, decimal, decimal_string, lex_lt, str_eq};

verus! {

/// The fixed reaction set: a small picker, deliberately, not a full emoji
/// keyboard.
pub const REACTION_EMOJIS: [&'static str; 6] = [
    "\u{1F44D}",
    "\u{2764}\u{FE0F}",
    "\u{1F602}",
    "\u{1F389}",
    "\u{1F615}",
    "\u{1F440}",
];

pub open spec fn picker_emoji(i: int) -> Seq<char> {
    REACTION_EMOJIS@[i]@
}

/// Where an emoji sorts among chips: its position in the picker, or past the
/// end of it for anything else.
pub open spec fn picker_rank(e: Seq<char>) -> int
    decreases 6int,
{
    picker_rank_from(e, 0)
}

pub open spec fn picker_rank_from(e: Seq<char>, i: int) -> int
    decreases 6 - i,
{
    if i >= 6 || i < 0 {
        6
    } else if picker_emoji(i) == e {
        i
    } else {
        picker_rank_from(e, i + 1)
    }
}

proof fn lemma_picker_rank_from(e: Seq<char>, i: int)
    requires
        0 <= i <= 6,
    ensures
        i <= picker_rank_from(e, i) <= 6,
        picker_rank_from(e, i) < 6 ==> picker_emoji(picker_rank_from(e, i)) == e,
        forall|j: int| i <= j < picker_rank_from(e, i) ==> picker_emoji(j) != e,
    decreases 6 - i,
{
    if i < 6 && picker_emoji(i) != e {
        lemma_picker_rank_from(e, i + 1);
    }
}

/// Stable chip ordering: picker order first, then anything else (from older
/// clients or future pickers) after it.
pub fn picker_index(emoji: &str) -> (r: usize)
    ensures
        r == picker_rank(emoji@),
        r <= 6,
        r < 6 ==> picker_emoji(r as int) == emoji@,
        forall|j: int| 0 <= j < r ==> picker_emoji(j) != emoji@,
{
    proof {
        lemma_picker_rank_from(emoji@, 0);
    }
    let mut i: usize = 0;
    while i < 6
        invariant
            i <= 6,
            picker_rank(emoji@) == picker_rank_from(emoji@, i as int),
            forall|j: int| 0 <= j < i ==> picker_emoji(j) != emoji@,
        decreases 6 - i,
    {
        if str_eq(REACTION_EMOJIS[i], emoji) {
            return i;
        }
        i += 1;
    }
    6
}

/// One rendered chip: an emoji, how many distinct users reacted with it, and
/// whether the viewer is among them.
#[derive(Clone, PartialEq, Debug)]
pub struct ReactionChip {
    pub emoji: String,
    pub count: usize,
    pub mine: bool,
}

/// A reaction row as the chips read it. Fields the store could not decode
/// are `None`; such a row is skipped.
#[derive(Clone, Debug)]
pub struct ReactionRow {
    pub active: Option<bool>,
    pub message: Option<u128>,
    pub user: Option<u128>,
    pub emoji: Option<String>,
}

/// Whether a row contributes to `message`'s chips.
pub open spec fn counted(row: ReactionRow, message: u128) -> bool {
    &&& row.active == Some(true)
    &&& row.message == Some(message)
    &&& row.user is Some
    &&& row.emoji is Some
}

/// Whether some counted row for `message` carries emoji `e`.
pub open spec fn has_emoji(rows: Seq<ReactionRow>, message: u128, e: Seq<char>) -> bool {
    exists|i: int| 0 <= i < rows.len() && counted(#[trigger] rows[i], message) && rows[i].emoji->0@ == e
}

/// Who reacted to `message` with `e`.
pub open spec fn reactors(rows: Seq<ReactionRow>, message: u128, e: Seq<char>) -> Set<u128> {
    Set::new(
        |u: u128|
            exists|i: int|
                0 <= i < rows.len() && counted(#[trigger] rows[i], message) && rows[i].emoji->0@
                    == e && rows[i].user == Some(u),
    )
}

/// The order chips are shown in.
pub open spec fn chip_before(a: Seq<char>, b: Seq<char>) -> bool {
    picker_rank(a) < picker_rank(b) || (picker_rank(a) == picker_rank(b) && lex_lt(a, b))
}

/// `chips` is exactly what `message`'s bubble shows to `viewer`.
pub open spec fn chips_of(
    rows: Seq<ReactionRow>,
    message: u128,
    viewer: Option<u128>,
    chips: Seq<ReactionChip>,
) -> bool {
    &&& forall|k: int|
        0 <= k < chips.len() ==> {
            let e = #[trigger] chips[k].emoji@;
            &&& has_emoji(rows, message, e)
            &&& chips[k].count == reactors(rows, message, e).len()
            &&& chips[k].mine == (viewer is Some && reactors(rows, message, e).contains(viewer->0))
        }
    &&& forall|e: Seq<char>|
        has_emoji(rows, message, e) ==> exists|k: int| 0 <= k < chips.len() && #[trigger] chips[k].emoji@ == e
    &&& forall|k: int, l: int|
        0 <= k < l < chips.len() ==> chip_before(#[trigger] chips[k].emoji@, #[trigger] chips[l].emoji@)
}

/// Chip-order comparison of two emojis: true when `a` sorts before `b`.
fn emoji_before(a: &str, b: &str) -> (r: bool)
    ensures
        r == chip_before(a@, b@),
{
    let ra = picker_index(a);
    let rb = picker_index(b);
    if ra != rb {
        ra < rb
    } else {
        compare_str(a, b) < 0
    }
}

proof fn lemma_chip_before_strict(a: Seq<char>, b: Seq<char>, c: Seq<char>)
    ensures
        !chip_before(a, a),
        chip_before(a, b) ==> !chip_before(b, a),
        chip_before(a, b) && chip_before(b, c) ==> chip_before(a, c),
        a == b || chip_before(a, b) || chip_before(b, a),
{
    crate::text::lemma_lex_irreflexive(a);
    crate::text::lemma_lex_asymmetric(a, b);
    crate::text::lemma_lex_transitive(a, b, c);
    crate::text::lemma_lex_total(a, b);
}

/// Insert `chip` into `sorted` (strictly ordered, and not holding its emoji)
/// at its place.
fn insert_chip(sorted: &mut Vec<ReactionChip>, chip: ReactionChip)
    requires
        forall|k: int, l: int|
            0 <= k < l < old(sorted)@.len() ==> chip_before(
                #[trigger] old(sorted)@[k].emoji@,
                #[trigger] old(sorted)@[l].emoji@,
            ),
        forall|k: int| 0 <= k < old(sorted)@.len() ==> #[trigger] old(sorted)@[k].emoji@ != chip.emoji@,
    ensures
        final(sorted)@.to_multiset() == old(sorted)@.to_multiset().insert(chip),
        forall|k: int, l: int|
            0 <= k < l < final(sorted)@.len() ==> chip_before(
                #[trigger] final(sorted)@[k].emoji@,
                #[trigger] final(sorted)@[l].emoji@,
            ),
{
    let ghost before = sorted@;
    let mut pos: usize = 0;
    while pos < sorted.len() && emoji_before(sorted[pos].emoji.as_str(), chip.emoji.as_str())
        invariant
            sorted@ == before,
            pos <= sorted@.len(),
            forall|k: int| 0 <= k < pos ==> chip_before(#[trigger] sorted@[k].emoji@, chip.emoji@),
        decreases sorted.len() - pos,
    {
        pos += 1;
    }
    proof {
        if pos < sorted@.len() {
            lemma_chip_before_strict(sorted@[pos as int].emoji@, chip.emoji@, chip.emoji@);
            assert(chip_before(chip.emoji@, sorted@[pos as int].emoji@));
        }
    }
    sorted.insert(pos, chip);
    proof {
        let s = sorted@;
        assert(s =~= before.insert(pos as int, chip));
        before.insert_ensures(pos as int, chip);
        before.to_multiset_ensures();
        s.to_multiset_ensures();
        broadcast use vstd::seq_lib::group_seq_properties;
        assert forall|k: int, l: int| 0 <= k < l < s.len() implies chip_before(
            #[trigger] s[k].emoji@,
            #[trigger] s[l].emoji@,
        ) by {
            if l < pos {
                assert(s[k] == before[k] && s[l] == before[l]);
            } else if l == pos {
                assert(s[k] == before[k]);
            } else if k == pos {
                assert(s[l] == before[l - 1]);
                if l - 1 > pos {
                    lemma_chip_before_strict(chip.emoji@, before[pos as int].emoji@, before[l - 1].emoji@);
                }
            } else if k < pos {
                assert(s[k] == before[k] && s[l] == before[l - 1]);
            } else {
                assert(s[k] == before[k - 1] && s[l] == before[l - 1]);
            }
        }
    }
}

/// Index of `e` among `emojis`, if present.
fn find_emoji(emojis: &Vec<String>, e: &str) -> (r: Option<usize>)
    ensures
        r is Some ==> r->0 < emojis@.len() && emojis@[r->0 as int]@ == e@,
        r is None ==> forall|k: int| 0 <= k < emojis@.len() ==> #[trigger] emojis@[k]@ != e@,
{
    let mut k: usize = 0;
    while k < emojis.len()
        invariant
            k <= emojis@.len(),
            forall|j: int| 0 <= j < k ==> #[trigger] emojis@[j]@ != e@,
        decreases emojis.len() - k,
    {
        if str_eq(emojis[k].as_str(), e) {
            return Some(k);
        }
        k += 1;
    }
    None
}

fn contains_id(ids: &Vec<u128>, id: u128) -> (r: bool)
    ensures
        r == ids@.contains(id),
{
    let mut k: usize = 0;
    while k < ids.len()
        invariant
            k <= ids@.len(),
            forall|j: int| 0 <= j < k ==> ids@[j] != id,
        decreases ids.len() - k,
    {
        if ids[k] == id {
            return true;
        }
        k += 1;
    }
    false
}

proof fn lemma_reactors_step(rows: Seq<ReactionRow>, message: u128, e: Seq<char>, i: int)
    requires
        0 <= i < rows.len(),
    ensures
        (counted(rows[i], message) && rows[i].emoji->0@ == e) ==> reactors(rows.take(i + 1), message, e)
            == reactors(rows.take(i), message, e).insert(rows[i].user->0),
        !(counted(rows[i], message) && rows[i].emoji->0@ == e) ==> reactors(rows.take(i + 1), message, e)
            == reactors(rows.take(i), message, e),
        has_emoji(rows.take(i + 1), message, e) == (has_emoji(rows.take(i), message, e) || (counted(
            rows[i],
            message,
        ) && rows[i].emoji->0@ == e)),
{
    let pre = rows.take(i);
    let post = rows.take(i + 1);
    assert(post =~= pre.push(rows[i]));
    assert forall|j: int| 0 <= j < pre.len() implies #[trigger] post[j] == pre[j] by {}
    assert(post[i] == rows[i]);
    let a = reactors(post, message, e);
    let b = reactors(pre, message, e);
    if counted(rows[i], message) && rows[i].emoji->0@ == e {
        assert forall|x: u128| a.contains(x) implies b.insert(rows[i].user->0).contains(x) by {
            let j = choose|j: int|
                0 <= j < post.len() && counted(#[trigger] post[j], message) && post[j].emoji->0@ == e
                    && post[j].user == Some(x);
            if j < pre.len() {
                assert(pre[j] == post[j]);
            }
        }
        assert forall|x: u128| b.insert(rows[i].user->0).contains(x) implies a.contains(x) by {
            if x != rows[i].user->0 {
                let j = choose|j: int|
                    0 <= j < pre.len() && counted(#[trigger] pre[j], message) && pre[j].emoji->0@ == e
                        && pre[j].user == Some(x);
                assert(pre[j] == post[j]);
            }
        }
        assert(a =~= b.insert(rows[i].user->0));
    } else {
        assert forall|x: u128| a.contains(x) implies b.contains(x) by {
            let j = choose|j: int|
                0 <= j < post.len() && counted(#[trigger] post[j], message) && post[j].emoji->0@ == e
                    && post[j].user == Some(x);
            if j < pre.len() {
                assert(pre[j] == post[j]);
            }
        }
        assert forall|x: u128| b.contains(x) implies a.contains(x) by {
            let j = choose|j: int|
                0 <= j < pre.len() && counted(#[trigger] pre[j], message) && pre[j].emoji->0@ == e
                    && pre[j].user == Some(x);
            assert(pre[j] == post[j]);
        }
        assert(a =~= b);
    }
    if has_emoji(post, message, e) {
        let j = choose|j: int| 0 <= j < post.len() && counted(#[trigger] post[j], message) && post[j].emoji->0@ == e;
        if j < pre.len() {
            assert(pre[j] == post[j]);
        }
    }
    if has_emoji(pre, message, e) {
        let j = choose|j: int| 0 <= j < pre.len() && counted(#[trigger] pre[j], message) && pre[j].emoji->0@ == e;
        assert(pre[j] == post[j]);
    }
}

/// The distinct emojis `message` carries in `rows`, each with the distinct
/// users who reacted with it.
fn reaction_groups(rows: &[ReactionRow], message: u128) -> (r: (Vec<String>, Vec<Vec<u128>>))
    ensures
        r.0@.len() == r.1@.len(),
        forall|t: int, s: int| 0 <= t < s < r.0@.len() ==> #[trigger] r.0@[t]@ != #[trigger] r.0@[s]@,
        forall|t: int| 0 <= t < r.0@.len() ==> has_emoji(rows@, message, #[trigger] r.0@[t]@),
        forall|e: Seq<char>|
            has_emoji(rows@, message, e) ==> exists|t: int| 0 <= t < r.0@.len() && #[trigger] r.0@[t]@ == e,
        forall|t: int|
            0 <= t < r.1@.len() ==> (#[trigger] r.1@[t])@.no_duplicates() && r.1@[t]@.to_set() == reactors(
                rows@,
                message,
                r.0@[t]@,
            ),
{
    let mut emojis: Vec<String> = Vec::new();
    let mut users: Vec<Vec<u128>> = Vec::new();
    let mut i: usize = 0;
    while i < rows.len()
        invariant
            i <= rows@.len(),
            emojis@.len() == users@.len(),
            forall|t: int, s: int| 0 <= t < s < emojis@.len() ==> #[trigger] emojis@[t]@ != #[trigger] emojis@[s]@,
            forall|t: int| 0 <= t < emojis@.len() ==> has_emoji(rows@.take(i as int), message, #[trigger] emojis@[t]@),
            forall|e: Seq<char>|
                has_emoji(rows@.take(i as int), message, e) ==> exists|t: int|
                    0 <= t < emojis@.len() && #[trigger] emojis@[t]@ == e,
            forall|t: int|
                0 <= t < users@.len() ==> (#[trigger] users@[t])@.no_duplicates() && users@[t]@.to_set()
                    == reactors(rows@.take(i as int), message, emojis@[t]@),
        decreases rows.len() - i,
    {
        let row = &rows[i];
        let ghost old_emojis = emojis@;
        let ghost old_users = users@;
        let is_counted = match (&row.active, &row.message, &row.user, &row.emoji) {
            (Some(true), Some(m), Some(_), Some(_)) => *m == message,
            _ => false,
        };
        if is_counted {
            let u = match &row.user {
                Some(u) => *u,
                None => 0,
            };
            let e = match &row.emoji {
                Some(e) => e.as_str(),
                None => "",
            };
            let found = find_emoji(&emojis, e);
            match found {
                Some(t) => {
                    let mut group = users.remove(t);
                    let ghost g0 = group@;
                    if !contains_id(&group, u) {
                        group.push(u);
                        proof {
                            assert(group@.to_set() =~= g0.to_set().insert(u)) by {
                                assert forall|x: u128| group@.to_set().contains(x) implies g0.to_set().insert(u).contains(x) by {
                                    let j = choose|j: int| 0 <= j < group@.len() && group@[j] == x;
                                    if j < g0.len() {
                                        assert(g0[j] == x);
                                    }
                                }
                                assert forall|x: u128| g0.to_set().insert(u).contains(x) implies group@.to_set().contains(x) by {
                                    if x == u {
                                        assert(group@[g0.len() as int] == u);
                                    } else {
                                        let j = choose|j: int| 0 <= j < g0.len() && g0[j] == x;
                                        assert(group@[j] == x);
                                    }
                                }
                            }
                        }
                    } else {
                        proof {
                            assert(g0.to_set().contains(u)) by {
                                let j = choose|j: int| 0 <= j < g0.len() && g0[j] == u;
                            }
                            assert(g0.to_set() =~= g0.to_set().insert(u));
                        }
                    }
                    users.insert(t, group);
                    proof {
                        assert(users@[t as int] == group);
                        assert forall|s: int| 0 <= s < users@.len() implies (#[trigger] users@[s])@.no_duplicates()
                            && users@[s]@.to_set() == reactors(rows@.take(i + 1), message, emojis@[s]@) by {
                            lemma_reactors_step(rows@, message, emojis@[s]@, i as int);
                            if s != t {
                                assert(users@[s] == old_users[s]);
                            }
                        }
                    }
                },
                None => {
                    emojis.push(e.to_owned());
                    let mut group: Vec<u128> = Vec::new();
                    group.push(u);
                    users.push(group);
                    proof {
                        let t = emojis@.len() - 1;
                        assert forall|s: int| 0 <= s < users@.len() implies (#[trigger] users@[s])@.no_duplicates()
                            && users@[s]@.to_set() == reactors(rows@.take(i + 1), message, emojis@[s]@) by {
                            lemma_reactors_step(rows@, message, emojis@[s]@, i as int);
                            if s == t {
                                assert(!has_emoji(rows@.take(i as int), message, emojis@[s]@));
                                assert(reactors(rows@.take(i as int), message, emojis@[s]@) =~= Set::<u128>::empty()) by {
                                    assert forall|x: u128| !reactors(rows@.take(i as int), message, emojis@[s]@).contains(x) by {
                                        if reactors(rows@.take(i as int), message, emojis@[s]@).contains(x) {
                                            let pre = rows@.take(i as int);
                                            let j = choose|j: int| 0 <= j < pre.len() && counted(#[trigger] pre[j], message) && pre[j].emoji->0@ == emojis@[s]@ && pre[j].user == Some(x);
                                            assert(has_emoji(pre, message, emojis@[s]@));
                                        }
                                    }
                                }
                                assert(users@[s]@ =~= seq![u]);
                                assert(seq![u].to_set() =~= set![u]) by {
                                    assert(seq![u][0] == u);
                                }
                            } else {
                                assert(users@[s] == old_users[s]);
                            }
                        }
                    }
                },
            }
            proof {
                assert forall|t: int| 0 <= t < emojis@.len() implies has_emoji(rows@.take(i + 1), message, #[trigger] emojis@[t]@) by {
                    lemma_reactors_step(rows@, message, emojis@[t]@, i as int);
                }
                assert forall|f: Seq<char>| #![trigger has_emoji(rows@.take(i + 1), message, f)] has_emoji(rows@.take(i + 1), message, f) implies exists|t: int|
                    0 <= t < emojis@.len() && #[trigger] emojis@[t]@ == f by {
                    lemma_reactors_step(rows@, message, f, i as int);
                    if has_emoji(rows@.take(i as int), message, f) {
                        let t0 = choose|t0: int| 0 <= t0 < old_emojis.len() && #[trigger] old_emojis[t0]@ == f;
                        assert(emojis@[t0] == old_emojis[t0]);
                    } else {
                        match found {
                            Some(t) => { assert(emojis@[t as int]@ == f); },
                            None => { assert(emojis@[emojis@.len() - 1]@ == f); },
                        }
                    }
                }
            }
        } else {
            proof {
                assert forall|t: int| 0 <= t < emojis@.len() implies has_emoji(rows@.take(i + 1), message, #[trigger] emojis@[t]@) by {
                    lemma_reactors_step(rows@, message, emojis@[t]@, i as int);
                }
                assert forall|f: Seq<char>| #![trigger has_emoji(rows@.take(i + 1), message, f)] has_emoji(rows@.take(i + 1), message, f) implies exists|t: int|
                    0 <= t < emojis@.len() && #[trigger] emojis@[t]@ == f by {
                    lemma_reactors_step(rows@, message, f, i as int);
                }
                assert forall|t: int| 0 <= t < users@.len() implies (#[trigger] users@[t])@.no_duplicates()
                    && users@[t]@.to_set() == reactors(rows@.take(i + 1), message, emojis@[t]@) by {
                    lemma_reactors_step(rows@, message, emojis@[t]@, i as int);
                }
            }
        }
        i += 1;
    }
    assert(rows@.take(rows@.len() as int) =~= rows@);
    (emojis, users)
}

/// Sort chips (with distinct emojis) into chip order.
fn sort_chips(chips: Vec<ReactionChip>) -> (sorted: Vec<ReactionChip>)
    requires
        forall|k: int, l: int| 0 <= k < l < chips@.len() ==> #[trigger] chips@[k].emoji@ != #[trigger] chips@[l].emoji@,
    ensures
        sorted@.to_multiset() == chips@.to_multiset(),
        forall|k: int, l: int|
            0 <= k < l < sorted@.len() ==> chip_before(#[trigger] sorted@[k].emoji@, #[trigger] sorted@[l].emoji@),
{
    let mut sorted: Vec<ReactionChip> = Vec::new();
    let mut i: usize = 0;
    proof {
        assert(chips@.take(0) =~= Seq::<ReactionChip>::empty());
        assert(sorted@ =~= Seq::<ReactionChip>::empty());
    }
    while i < chips.len()
        invariant
            i <= chips@.len(),
            forall|k: int, l: int| 0 <= k < l < chips@.len() ==> #[trigger] chips@[k].emoji@ != #[trigger] chips@[l].emoji@,
            sorted@.to_multiset() == chips@.take(i as int).to_multiset(),
            forall|k: int, l: int|
                0 <= k < l < sorted@.len() ==> chip_before(#[trigger] sorted@[k].emoji@, #[trigger] sorted@[l].emoji@),
        decreases chips.len() - i,
    {
        let chip = chips[i].clone_chip();
        proof {
            assert forall|k: int| 0 <= k < sorted@.len() implies #[trigger] sorted@[k].emoji@ != chip.emoji@ by {
                sorted@.to_multiset_ensures();
                chips@.take(i as int).to_multiset_ensures();
                assert(sorted@.to_multiset().count(sorted@[k]) > 0);
                assert(chips@.take(i as int).contains(sorted@[k]));
                let j = choose|j: int| 0 <= j < i && chips@.take(i as int)[j] == sorted@[k];
                assert(chips@[j] == sorted@[k]);
            }
        }
        insert_chip(&mut sorted, chip);
        proof {
            assert(chips@.take(i + 1) =~= chips@.take(i as int).push(chips@[i as int]));
            chips@.take(i as int).to_multiset_ensures();
        }
        i += 1;
    }
    assert(chips@.take(chips@.len() as int) =~= chips@);
    sorted
}

impl ReactionChip {
    /// A copy of this chip.
    pub fn clone_chip(&self) -> (r: ReactionChip)
        ensures
            r == *self,
    {
        ReactionChip { emoji: self.emoji.clone(), count: self.count, mine: self.mine }
    }
}

/// The chips under `message`'s bubble, as `viewer` sees them: one per emoji,
/// counting each user once however many duplicate rows they have, ordered
/// by picker position and then by the emoji itself.
pub fn reaction_chips_for(rows: &[ReactionRow], message: u128, viewer: Option<u128>) -> (chips: Vec<
    ReactionChip,
>)
    ensures
        chips_of(rows@, message, viewer, chips@),
{
    let (emojis, users) = reaction_groups(rows, message);
    let mut unsorted: Vec<ReactionChip> = Vec::new();
    let mut t: usize = 0;
    while t < emojis.len()
        invariant
            t <= emojis@.len(),
            emojis@.len() == users@.len(),
            forall|a: int|
                0 <= a < users@.len() ==> (#[trigger] users@[a])@.no_duplicates() && users@[a]@.to_set()
                    == reactors(rows@, message, emojis@[a]@),
            unsorted@.len() == t,
            forall|k: int|
                0 <= k < t ==> {
                    &&& (#[trigger] unsorted@[k]).emoji@ == emojis@[k]@
                    &&& unsorted@[k].count == reactors(rows@, message, emojis@[k]@).len()
                    &&& unsorted@[k].mine == (viewer is Some && reactors(rows@, message, emojis@[k]@).contains(viewer->0))
                },
        decreases emojis.len() - t,
    {
        let group = &users[t];
        proof {
            group@.unique_seq_to_set();
        }
        let mine = match viewer {
            Some(v) => contains_id(group, v),
            None => false,
        };
        unsorted.push(ReactionChip { emoji: emojis[t].clone(), count: group.len(), mine });
        t += 1;
    }
    let chips = sort_chips(unsorted);
    proof {
        chips@.to_multiset_ensures();
        unsorted@.to_multiset_ensures();
        assert forall|k: int| 0 <= k < chips@.len() implies {
            let e = #[trigger] chips@[k].emoji@;
            &&& has_emoji(rows@, message, e)
            &&& chips@[k].count == reactors(rows@, message, e).len()
            &&& chips@[k].mine == (viewer is Some && reactors(rows@, message, e).contains(viewer->0))
        } by {
            assert(chips@.to_multiset().count(chips@[k]) > 0);
            assert(unsorted@.contains(chips@[k]));
            let a = choose|a: int| 0 <= a < unsorted@.len() && unsorted@[a] == chips@[k];
            assert(unsorted@[a].emoji@ == emojis@[a]@);
        }
        assert forall|e: Seq<char>| has_emoji(rows@, message, e) implies exists|k: int|
            0 <= k < chips@.len() && #[trigger] chips@[k].emoji@ == e by {
            let a = choose|a: int| 0 <= a < emojis@.len() && #[trigger] emojis@[a]@ == e;
            assert(unsorted@[a].emoji@ == e);
            assert(unsorted@.to_multiset().count(unsorted@[a]) > 0);
            assert(chips@.contains(unsorted@[a]));
        }
    }
    chips
}

/// The chips of one message.
pub struct MessageChips {
    pub message: u128,
    pub chips: Vec<ReactionChip>,
}

/// Render-ready chips for every message that has any, from the one standing
/// reactions query.
#[verifier::loop_isolation(false)]
pub fn reaction_chips(rows: &[ReactionRow], viewer: Option<u128>) -> (out: Vec<MessageChips>)
    ensures
        forall|k: int|
            0 <= k < out@.len() ==> chips_of(rows@, #[trigger] out@[k].message, viewer, out@[k].chips@)
                && out@[k].chips@.len() > 0,
        forall|k: int, l: int| 0 <= k < l < out@.len() ==> #[trigger] out@[k].message != #[trigger] out@[l].message,
        forall|i: int|
            0 <= i < rows@.len() && (#[trigger] rows@[i]).message is Some && counted(rows@[i], rows@[i].message->0)
                ==> exists|k: int| 0 <= k < out@.len() && #[trigger] out@[k].message == rows@[i].message->0,
{
    let mut out: Vec<MessageChips> = Vec::new();
    let mut i: usize = 0;
    while i < rows.len()
        invariant
            i <= rows@.len(),
            forall|k: int|
                0 <= k < out@.len() ==> chips_of(rows@, #[trigger] out@[k].message, viewer, out@[k].chips@)
                    && out@[k].chips@.len() > 0,
            forall|k: int, l: int| 0 <= k < l < out@.len() ==> #[trigger] out@[k].message != #[trigger] out@[l].message,
            forall|j: int|
                0 <= j < i && (#[trigger] rows@[j]).message is Some && counted(rows@[j], rows@[j].message->0)
                    ==> exists|k: int| 0 <= k < out@.len() && #[trigger] out@[k].message == rows@[j].message->0,
        decreases rows.len() - i,
    {
        let ghost old_out = out@;
        if let Some(m) = rows[i].message {
            let mut seen = false;
            let mut k: usize = 0;
            while k < out.len()
                invariant
                    k <= out@.len(),
                    seen ==> exists|q: int| 0 <= q < out@.len() && #[trigger] out@[q].message == m,
                    !seen ==> forall|q: int| 0 <= q < k ==> #[trigger] out@[q].message != m,
                decreases out.len() - k,
            {
                if out[k].message == m {
                    seen = true;
                }
                k += 1;
            }
            if !seen {
                let chips = reaction_chips_for(rows, m, viewer);
                if chips.len() > 0 {
                    out.push(MessageChips { message: m, chips });
                    proof {
                        assert(out@[out@.len() - 1].message == m);
                        assert forall|k: int|
                            0 <= k < out@.len() implies chips_of(rows@, #[trigger] out@[k].message, viewer, out@[k].chips@)
                                && out@[k].chips@.len() > 0 by {
                            if k < old_out.len() {
                                assert(out@[k] == old_out[k]);
                            }
                        }
                        assert forall|j: int|
                            0 <= j < i && (#[trigger] rows@[j]).message is Some && counted(rows@[j], rows@[j].message->0)
                            implies exists|k: int| 0 <= k < out@.len() && #[trigger] out@[k].message == rows@[j].message->0 by {
                            let q = choose|q: int| 0 <= q < old_out.len() && #[trigger] old_out[q].message == rows@[j].message->0;
                            assert(out@[q] == old_out[q]);
                        }
                    }
                } else {
                    proof {
                        if counted(rows@[i as int], m) {
                            assert(has_emoji(rows@, m, rows@[i as int].emoji->0@));
                        }
                    }
                }
            }
        }
        i += 1;
    }
    out
}

/// What a toggle writes.
#[derive(Clone, Copy, PartialEq, Eq, Debug)]
pub enum ReactionToggle {
    /// No row yet for this (message, user, emoji): create one, active.
    Create,
    /// Set every matching row's `active` to this.
    SetAll(bool),
}

/// Plan a toggle from the `active` flags of the viewer's existing rows for
/// this (message, emoji), inactive ones included. An undecodable flag counts
/// as inactive.
pub open spec fn toggle_spec(existing: Seq<Option<bool>>) -> ReactionToggle {
    if existing.len() == 0 {
        ReactionToggle::Create
    } else {
        ReactionToggle::SetAll(!any_active(existing))
    }
}

/// The rows of the viewer's reaction after a toggle was applied to them.
pub open spec fn after_toggle(existing: Seq<Option<bool>>) -> Seq<Option<bool>> {
    match toggle_spec(existing) {
        ReactionToggle::Create => seq![Some(true)],
        ReactionToggle::SetAll(b) => Seq::new(existing.len(), |i: int| Some(b)),
    }
}

pub fn toggle_plan(existing: &[Option<bool>]) -> (r: ReactionToggle)
    ensures
        r == toggle_spec(existing@),
{
    if existing.len() == 0 {
        return ReactionToggle::Create;
    }
    let mut any_active = false;
    let mut i: usize = 0;
    while i < existing.len()
        invariant
            i <= existing@.len(),
            any_active == exists|j: int| 0 <= j < i && existing@[j] == Some(true),
        decreases existing.len() - i,
    {
        if existing[i] == Some(true) {
            any_active = true;
        }
        i += 1;
    }
    ReactionToggle::SetAll(!any_active)
}

/// Some row of the viewer's reaction is active.
pub open spec fn any_active(rows: Seq<Option<bool>>) -> bool {
    exists|i: int| 0 <= i < rows.len() && rows[i] == Some(true)
}

/// The first toggle creates an active reaction, and every toggle after it
/// flips every row to the opposite of "any active": toggled twice, the
/// reaction is back to whether it was active, however many duplicate rows a
/// race left, now agreeing across all of them.
pub proof fn law_toggle_flips(existing: Seq<Option<bool>>)
    ensures
        existing.len() == 0 ==> after_toggle(existing) == seq![Some(true)] && after_toggle(after_toggle(existing))
            == seq![Some(false)],
        existing.len() > 0 ==> after_toggle(existing) == Seq::new(existing.len(), |i: int| Some(!any_active(existing)))
            && after_toggle(after_toggle(existing)) == Seq::new(
            existing.len(),
            |i: int| Some(any_active(existing)),
        ),
{
    let once = after_toggle(existing);
    if existing.len() == 0 {
        assert(once[0] == Some(true));
        assert(any_active(once));
        assert(after_toggle(once) =~= seq![Some(false)]);
    } else {
        let a = any_active(existing);
        assert(once =~= Seq::new(existing.len(), |i: int| Some(!a)));
        assert(once[0] == Some(!a));
        if !a {
            assert(any_active(once));
        } else {
            assert forall|i: int| 0 <= i < once.len() implies once[i] != Some(true) by {
                assert(once[i] == Some(!a));
            }
            assert(!any_active(once));
        }
        assert(after_toggle(once) =~= Seq::new(existing.len(), |i: int| Some(a)));
    }
}

/// A chip's accessible label: the count, the emoji, "reaction" or
/// "reactions", and what a click does for this reader.
pub open spec fn chip_label_spec(count: nat, emoji: Seq<char>, mine: bool) -> Seq<char> {
    decimal(count) + " "@ + emoji + " "@ + (if count == 1 {
        "reaction"@
    } else {
        "reactions"@
    }) + ". "@ + (if mine {
        "Click to remove yours"@
    } else {
        "Click to react"@
    }) + "."@
}

pub fn chip_label(chip: &ReactionChip) -> (r: String)
    ensures
        r@ == chip_label_spec(chip.count as nat, chip.emoji@, chip.mine),
{
    let mut r = decimal_string(chip.count);
    r.append(" ");
    r.append(chip.emoji.as_str());
    r.append(" ");
    r.append(if chip.count == 1 { "reaction" } else { "reactions" });
    r.append(". ");
    r.append(if chip.mine { "Click to remove yours" } else { "Click to react" });
    r.append(".");
    r
}

/// A chip's CSS class: marked when the reader is among its reactors.
pub fn chip_class(mine: bool) -> (r: &'static str)
    ensures
        r@ == (if mine {
            "reactionChip mine"@
        } else {
            "reactionChip"@
        }),
{
    if mine {
        "reactionChip mine"
    } else {
        "reactionChip"
    }
}

} // verus!

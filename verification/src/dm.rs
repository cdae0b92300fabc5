//! Direct messages: a conversation is its two people, never a row.
//!
//! A two-party thread has no owner who could allocate it, so two clients can
//! both find no thread and both create one. The answer is agreement rather
//! than prevention: participants are stored in canonical-pair order and looked
//! up by that pair, every reader WRITES into the same row of a pair (the one
//! with the lowest id), and every READ spans all of the pair's rows, so what
//! landed in a twin during the race stays reachable.
//!
//! The three pair rules the chat model's schema relies on — the stored
//! order of a pair (`canonical_pair`), the row a pair writes into
//! (`canonical_thread`) and the other end from a seat (`dm_partner`) — are
//! each a few lines, written here and proved against the spec function beside
//! them (`pair_of`, the lowest id, `partner_spec`), so every surface below
//! agrees with them by proof rather than by convention.
use vstd::prelude::*;

use crate::context::WriteSession;
use crate::text::{all_ws, is_blank};

verus! {

/// A thread row as the DM surfaces read it. A participant the store could not
/// decode is `None`; such a row belongs to no conversation.
#[derive(Clone, Copy, PartialEq, Eq, Debug)]
pub struct DmThread {
    pub id: u128,
    pub a: Option<u128>,
    pub b: Option<u128>,
}

/// The order a pair of participants is stored and looked up in: lower id
/// first.
pub open spec fn pair_of(x: u128, y: u128) -> (u128, u128) {
    if x <= y {
        (x, y)
    } else {
        (y, x)
    }
}

pub fn canonical_pair(x: u128, y: u128) -> (r: (u128, u128))
    ensures
        r == pair_of(x, y),
{
    if x <= y {
        (x, y)
    } else {
        (y, x)
    }
}

/// Which of a pair's rows every reader writes into: the lowest id.
pub fn canonical_thread(ids: &[u128]) -> (r: Option<u128>)
    ensures
        ids@.len() == 0 <==> r is None,
        r matches Some(m) ==> ids@.contains(m) && forall|i: int| 0 <= i < ids@.len() ==> m <= ids@[i],
{
    if ids.len() == 0 {
        return None;
    }
    let mut m = ids[0];
    let mut i: usize = 1;
    assert(ids@.subrange(0, 1)[0] == m);
    while i < ids.len()
        invariant
            1 <= i <= ids@.len(),
            ids@.subrange(0, i as int).contains(m),
            forall|j: int| 0 <= j < i ==> m <= ids@[j],
        decreases ids.len() - i,
    {
        if ids[i] < m {
            m = ids[i];
            assert(ids@.subrange(0, i + 1)[i as int] == m);
        } else {
            let ghost j = choose|j: int| 0 <= j < i && ids@.subrange(0, i as int)[j] == m;
            assert(ids@.subrange(0, i + 1)[j] == m);
        }
        i += 1;
    }
    proof {
        let j = choose|j: int| 0 <= j < i && ids@.subrange(0, i as int)[j] == m;
        assert(ids@[j] == m);
    }
    Some(m)
}

/// The other participant of a thread with participants `a` and `b`, from
/// `viewer`'s seat; `None` if the viewer is not in it, or is both ends.
pub open spec fn partner_spec(a: u128, b: u128, viewer: u128) -> Option<u128> {
    if viewer == a && viewer != b {
        Some(b)
    } else if viewer == b && viewer != a {
        Some(a)
    } else {
        None
    }
}

pub fn dm_partner(a: u128, b: u128, viewer: u128) -> (r: Option<u128>)
    ensures
        r == partner_spec(a, b, viewer),
{
    if viewer == a && viewer != b {
        Some(b)
    } else if viewer == b && viewer != a {
        Some(a)
    } else {
        None
    }
}

/// The other participant of a thread, from the viewer's seat.
pub fn partner_of(thread: &DmThread, viewer: u128) -> (r: Option<u128>)
    ensures
        r == (match (thread.a, thread.b) {
            (Some(a), Some(b)) => partner_spec(a, b, viewer),
            _ => None,
        }),
{
    match (thread.a, thread.b) {
        (Some(a), Some(b)) => dm_partner(a, b, viewer),
        _ => None,
    }
}

/// A thread's canonical participant pair, if both participants decode.
pub open spec fn key_of(t: DmThread) -> Option<(u128, u128)> {
    match (t.a, t.b) {
        (Some(a), Some(b)) => Some(pair_of(a, b)),
        _ => None,
    }
}

fn thread_key(t: &DmThread) -> (r: Option<(u128, u128)>)
    ensures
        r == key_of(*t),
{
    match (t.a, t.b) {
        (Some(a), Some(b)) => Some(canonical_pair(a, b)),
        _ => None,
    }
}

fn has_key(t: &DmThread, key: (u128, u128)) -> (r: bool)
    ensures
        r == (key_of(*t) == Some(key)),
{
    match thread_key(t) {
        Some(k) => k.0 == key.0 && k.1 == key.1,
        None => false,
    }
}

/// The ids of the threads that belong to the conversation keyed `key`, in
/// input order.
pub open spec fn ids_with_key(threads: Seq<DmThread>, key: (u128, u128)) -> Seq<u128>
    decreases threads.len(),
{
    if threads.len() == 0 {
        Seq::empty()
    } else {
        let rest = ids_with_key(threads.drop_last(), key);
        if key_of(threads.last()) == Some(key) {
            rest.push(threads.last().id)
        } else {
            rest
        }
    }
}

/// Some thread of `threads` belongs to the conversation keyed `key`.
pub open spec fn keyed(threads: Seq<DmThread>, key: (u128, u128)) -> bool {
    exists|j: int| 0 <= j < threads.len() && key_of(#[trigger] threads[j]) == Some(key)
}

pub open spec fn sorted_ids(s: Seq<u128>) -> bool {
    forall|i: int, j: int| 0 <= i < j < s.len() ==> s[i] <= s[j]
}

proof fn lemma_ids_with_key_contains(threads: Seq<DmThread>, key: (u128, u128), id: u128)
    ensures
        ids_with_key(threads, key).contains(id) <==> exists|i: int|
            0 <= i < threads.len() && key_of(#[trigger] threads[i]) == Some(key) && threads[i].id == id,
    decreases threads.len(),
{
    if threads.len() > 0 {
        let rest = threads.drop_last();
        lemma_ids_with_key_contains(rest, key, id);
        let r = ids_with_key(rest, key);
        if key_of(threads.last()) == Some(key) {
            assert(r.push(threads.last().id).contains(id) <==> (r.contains(id) || threads.last().id == id)) by {
                if r.push(threads.last().id).contains(id) {
                    let j = choose|j: int| 0 <= j < r.len() + 1 && r.push(threads.last().id)[j] == id;
                    if j < r.len() {
                        assert(r[j] == id);
                    }
                }
                if r.contains(id) {
                    let j = choose|j: int| 0 <= j < r.len() && r[j] == id;
                    assert(r.push(threads.last().id)[j] == id);
                }
                if threads.last().id == id {
                    assert(r.push(threads.last().id)[r.len() as int] == id);
                }
            }
        }
        if exists|i: int| 0 <= i < threads.len() && key_of(#[trigger] threads[i]) == Some(key) && threads[i].id == id {
            let i = choose|i: int| 0 <= i < threads.len() && key_of(#[trigger] threads[i]) == Some(key) && threads[i].id == id;
            if i < rest.len() {
                assert(rest[i] == threads[i]);
            }
        }
        if exists|i: int| 0 <= i < rest.len() && key_of(#[trigger] rest[i]) == Some(key) && rest[i].id == id {
            let i = choose|i: int| 0 <= i < rest.len() && key_of(#[trigger] rest[i]) == Some(key) && rest[i].id == id;
            assert(rest[i] == threads[i]);
        }
    }
}

/// Insert `x` into the ascending `v`, keeping it ascending.
fn insert_sorted_id(v: &mut Vec<u128>, x: u128)
    requires
        sorted_ids(old(v)@),
    ensures
        sorted_ids(final(v)@),
        final(v)@.to_multiset() == old(v)@.to_multiset().insert(x),
{
    let ghost before = v@;
    let mut pos: usize = 0;
    while pos < v.len() && v[pos] <= x
        invariant
            v@ == before,
            pos <= v@.len(),
            forall|k: int| 0 <= k < pos ==> v@[k] <= x,
        decreases v.len() - pos,
    {
        pos += 1;
    }
    v.insert(pos, x);
    proof {
        lemma_insert_multiset(before, pos as int, x);
        before.insert_ensures(pos as int, x);
        assert(v@ =~= before.insert(pos as int, x));
        assert forall|i: int, j: int| 0 <= i < j < v@.len() implies v@[i] <= v@[j] by {
            if j < pos {
                assert(v@[i] == before[i] && v@[j] == before[j]);
            } else if j == pos {
                assert(v@[i] == before[i]);
            } else if i == pos {
                assert(v@[j] == before[j - 1]);
            } else if i < pos {
                assert(v@[i] == before[i] && v@[j] == before[j - 1]);
            } else {
                assert(v@[i] == before[i - 1] && v@[j] == before[j - 1]);
            }
        }
    }
}

proof fn lemma_insert_multiset<A>(s: Seq<A>, pos: int, x: A)
    requires
        0 <= pos <= s.len(),
    ensures
        s.insert(pos, x).to_multiset() == s.to_multiset().insert(x),
{
    let w = s.insert(pos, x);
    s.insert_ensures(pos, x);
    assert(w.remove(pos) =~= s);
    w.to_multiset_ensures();
    assert(w[pos] == x);
    assert(w.contains(x));
    broadcast use vstd::multiset::group_multiset_axioms;
    assert(w.to_multiset() =~= s.to_multiset().insert(x));
}

/// The ids of a conversation's rows, ascending.
fn sort_ids(ids: &Vec<u128>) -> (r: Vec<u128>)
    ensures
        sorted_ids(r@),
        r@.to_multiset() == ids@.to_multiset(),
{
    let mut r: Vec<u128> = Vec::new();
    let mut i: usize = 0;
    proof {
        assert(ids@.take(0) =~= Seq::<u128>::empty());
        assert(r@ =~= Seq::<u128>::empty());
    }
    while i < ids.len()
        invariant
            i <= ids@.len(),
            sorted_ids(r@),
            r@.to_multiset() == ids@.take(i as int).to_multiset(),
        decreases ids.len() - i,
    {
        insert_sorted_id(&mut r, ids[i]);
        proof {
            assert(ids@.take(i + 1) =~= ids@.take(i as int).push(ids@[i as int]));
            ids@.take(i as int).to_multiset_ensures();
        }
        i += 1;
    }
    assert(ids@.take(ids@.len() as int) =~= ids@);
    r
}

/// Every thread row for the conversation between `viewer` and `partner`,
/// ascending by id. Every read goes across the pair; only the write picks a
/// row.
pub fn pair_rows(threads: &[DmThread], viewer: u128, partner: u128) -> (rows: Vec<u128>)
    ensures
        sorted_ids(rows@),
        rows@.to_multiset() == ids_with_key(threads@, pair_of(viewer, partner)).to_multiset(),
{
    let pair = canonical_pair(viewer, partner);
    let mut ids: Vec<u128> = Vec::new();
    let mut i: usize = 0;
    while i < threads.len()
        invariant
            i <= threads@.len(),
            ids@ == ids_with_key(threads@.take(i as int), pair),
        decreases threads.len() - i,
    {
        let t = &threads[i];
        proof {
            assert(threads@.take(i + 1).drop_last() =~= threads@.take(i as int));
            assert(threads@.take(i + 1).last() == *t);
        }
        if has_key(t, pair) {
            ids.push(t.id);
        }
        i += 1;
    }
    assert(threads@.take(threads@.len() as int) =~= threads@);
    sort_ids(&ids)
}

/// One conversation per correspondent: the row every reader agrees to call
/// THE thread for the pair, plus every row the pair has, ascending.
#[derive(Clone, Debug)]
pub struct Conversation {
    pub canonical: DmThread,
    pub rows: Vec<u128>,
}

/// `c` is the conversation of `threads` keyed `key`: its rows are exactly the
/// pair's thread ids, ascending, and its canonical row is the first thread of
/// the pair holding the lowest of them.
pub open spec fn is_conversation(threads: Seq<DmThread>, key: (u128, u128), c: Conversation) -> bool {
    &&& key_of(c.canonical) == Some(key)
    &&& sorted_ids(c.rows@)
    &&& c.rows@.to_multiset() == ids_with_key(threads, key).to_multiset()
    &&& exists|i: int|
        0 <= i < threads.len() && threads[i] == c.canonical && forall|j: int|
            0 <= j < threads.len() && key_of(#[trigger] threads[j]) == Some(key) ==> c.canonical.id
                <= threads[j].id && (threads[j].id == c.canonical.id ==> i <= j)
}

/// The first thread keyed `key` holding the lowest id among the pair's rows.
fn canonical_of(threads: &[DmThread], key: (u128, u128)) -> (r: usize)
    requires
        keyed(threads@, key),
    ensures
        r < threads@.len(),
        key_of(threads@[r as int]) == Some(key),
        forall|j: int|
            0 <= j < threads@.len() && key_of(#[trigger] threads@[j]) == Some(key) ==> threads@[r as int].id
                <= threads@[j].id && (threads@[j].id == threads@[r as int].id ==> r <= j),
{
    let mut best: Option<usize> = None;
    let mut i: usize = 0;
    while i < threads.len()
        invariant
            i <= threads@.len(),
            best matches Some(b) ==> b < i && key_of(threads@[b as int]) == Some(key),
            best is None ==> forall|j: int| 0 <= j < i ==> key_of(#[trigger] threads@[j]) != Some(key),
            best matches Some(b) ==> forall|j: int|
                0 <= j < i && key_of(#[trigger] threads@[j]) == Some(key) ==> threads@[b as int].id
                    <= threads@[j].id && (threads@[j].id == threads@[b as int].id ==> b <= j),
        decreases threads.len() - i,
    {
        if has_key(&threads[i], key) {
            match best {
                Some(b) => {
                    if threads[i].id < threads[b].id {
                        best = Some(i);
                    }
                },
                None => {
                    best = Some(i);
                },
            }
        }
        i += 1;
    }
    match best {
        Some(b) => b,
        None => {
            proof {
                let w = choose|w: int| 0 <= w < threads@.len() && key_of(#[trigger] threads@[w]) == Some(key);
            }
            0
        },
    }
}

/// Group the viewer's threads by correspondent: one conversation per
/// canonical participant pair, so duplicate rows from a race collapse into
/// one sidebar entry, ordered by their canonical rows' ids (oldest thread
/// first, ids being time-ordered).
pub fn conversations(threads: &[DmThread]) -> (out: Vec<Conversation>)
    ensures
        forall|k: int|
            0 <= k < out@.len() ==> is_conversation(threads@, key_of((#[trigger] out@[k]).canonical)->0, out@[k]),
        forall|k: int, l: int|
            0 <= k < l < out@.len() ==> key_of((#[trigger] out@[k]).canonical) != key_of((#[trigger] out@[l]).canonical),
        forall|i: int|
            0 <= i < threads@.len() && (#[trigger] key_of(threads@[i])) is Some ==> exists|k: int|
                0 <= k < out@.len() && key_of(#[trigger] out@[k].canonical) == key_of(threads@[i]),
        forall|k: int, l: int| 0 <= k < l < out@.len() ==> out@[k].canonical.id <= out@[l].canonical.id,
{
    // The distinct pairs, in order of first appearance.
    let mut keys: Vec<(u128, u128)> = Vec::new();
    let mut i: usize = 0;
    while i < threads.len()
        invariant
            i <= threads@.len(),
            forall|a: int, b: int| 0 <= a < b < keys@.len() ==> keys@[a] != keys@[b],
            forall|a: int|
                0 <= a < keys@.len() ==> keyed(threads@, #[trigger] keys@[a]),
            forall|j: int|
                0 <= j < i && (#[trigger] key_of(threads@[j])) is Some ==> keys@.contains(key_of(threads@[j])->0),
        decreases threads.len() - i,
    {
        if let Some(key) = thread_key(&threads[i]) {
            let mut seen = false;
            let mut k: usize = 0;
            while k < keys.len()
                invariant
                    k <= keys@.len(),
                    seen ==> keys@.contains(key),
                    !seen ==> forall|q: int| 0 <= q < k ==> keys@[q] != key,
                decreases keys.len() - k,
            {
                if keys[k].0 == key.0 && keys[k].1 == key.1 {
                    seen = true;
                }
                k += 1;
            }
            if !seen {
                let ghost before = keys@;
                keys.push(key);
                proof {
                    assert(keys@[keys@.len() - 1] == key);
                    assert forall|j: int|
                        0 <= j < i + 1 && (#[trigger] key_of(threads@[j])) is Some implies keys@.contains(key_of(threads@[j])->0) by {
                        if j < i {
                            let q = choose|q: int| 0 <= q < before.len() && before[q] == key_of(threads@[j])->0;
                            assert(keys@[q] == before[q]);
                        }
                    }
                    assert forall|a: int|
                        0 <= a < keys@.len() implies keyed(threads@, #[trigger] keys@[a]) by {
                        if a < before.len() {
                            assert(keys@[a] == before[a]);
                        } else {
                            assert(key_of(threads@[i as int]) == Some(keys@[a]));
                        }
                    }
                }
            }
        }
        i += 1;
    }
    // One conversation per pair, then placed in canonical-id order.
    let mut unsorted: Vec<Conversation> = Vec::new();
    let mut zeros: Vec<i64> = Vec::new();
    let mut ids: Vec<u128> = Vec::new();
    let mut t: usize = 0;
    while t < keys.len()
        invariant
            t <= keys@.len(),
            forall|a: int|
                0 <= a < keys@.len() ==> keyed(threads@, #[trigger] keys@[a]),
            unsorted@.len() == t,
            zeros@.len() == t,
            ids@.len() == t,
            forall|k: int| 0 <= k < t ==> #[trigger] zeros@[k] == 0,
            forall|k: int| #![trigger ids@[k]] 0 <= k < t ==> ids@[k] == unsorted@[k].canonical.id,
            forall|k: int|
                0 <= k < t ==> key_of((#[trigger] unsorted@[k]).canonical) == Some(keys@[k]) && is_conversation(
                    threads@,
                    keys@[k],
                    unsorted@[k],
                ),
        decreases keys.len() - t,
    {
        let conv = conversation_for(threads, keys[t]);
        let ghost (u0, z0, i0) = (unsorted@, zeros@, ids@);
        ids.push(conv.canonical.id);
        zeros.push(0);
        unsorted.push(conv);
        proof {
            assert forall|k: int| 0 <= k < t + 1 implies #[trigger] zeros@[k] == 0 && ids@[k] == unsorted@[k].canonical.id by {
                if k < t {
                    assert(zeros@[k] == z0[k] && ids@[k] == i0[k] && unsorted@[k] == u0[k]);
                }
            }
            assert forall|k: int| 0 <= k < t + 1 implies key_of((#[trigger] unsorted@[k]).canonical) == Some(keys@[k]) && is_conversation(
                threads@,
                keys@[k],
                unsorted@[k],
            ) by {
                if k < t {
                    assert(unsorted@[k] == u0[k]);
                }
            }
        }
        t += 1;
    }
    let mut order: Vec<usize> = Vec::new();
    let mut i: usize = 0;
    while i < unsorted.len()
        invariant
            i <= unsorted@.len(),
            zeros@.len() == unsorted@.len(),
            ids@.len() == unsorted@.len(),
            order@.no_duplicates(),
            forall|k: int| 0 <= k < order@.len() ==> #[trigger] order@[k] < i,
            forall|j: int| #![trigger order@.contains(j as usize)] 0 <= j < unsorted@.len() ==> (order@.contains(j as usize) <==> j < i),
            ranked(order@, zeros@, ids@),
        decreases unsorted.len() - i,
    {
        let ghost before = order@;
        let pos = insert_ranked(&mut order, i, zeros.as_slice(), ids.as_slice());
        proof {
            lemma_insert_set(before, pos as int, i);
            before.insert_ensures(pos as int, i);
            assert forall|j: int| #![trigger order@.contains(j as usize)] 0 <= j < unsorted@.len() implies (order@.contains(j as usize) <==> j < i + 1) by {
                assert(order@.contains(j as usize) == order@.to_set().contains(j as usize));
                assert(before.contains(j as usize) == before.to_set().contains(j as usize));
            }
            assert forall|k: int| 0 <= k < order@.len() implies #[trigger] order@[k] < i + 1 by {
                if k < pos {
                    assert(order@[k] == before[k]);
                } else if k > pos {
                    assert(order@[k] == before[k - 1]);
                }
            }
        }
        i += 1;
    }
    let mut out: Vec<Conversation> = Vec::new();
    let mut k: usize = 0;
    while k < order.len()
        invariant
            k <= order@.len(),
            out@.len() == k,
            forall|q: int| 0 <= q < order@.len() ==> #[trigger] order@[q] < unsorted@.len(),
            forall|q: int| 0 <= q < k ==> (#[trigger] out@[q]).canonical == unsorted@[order@[q] as int].canonical
                && out@[q].rows@ == unsorted@[order@[q] as int].rows@,
        decreases order.len() - k,
    {
        let ghost before = out@;
        out.push(unsorted[order[k]].clone_conversation());
        proof {
            assert forall|q: int| 0 <= q < k + 1 implies (#[trigger] out@[q]).canonical == unsorted@[order@[q] as int].canonical
                && out@[q].rows@ == unsorted@[order@[q] as int].rows@ by {
                if q < k {
                    assert(out@[q] == before[q]);
                }
            }
        }
        k += 1;
    }
    proof {
        assert forall|q: int| 0 <= q < out@.len() implies is_conversation(threads@, key_of((#[trigger] out@[q]).canonical)->0, out@[q]) by {
            assert(out@[q].canonical == unsorted@[order@[q] as int].canonical && out@[q].rows@ == unsorted@[order@[q] as int].rows@);
        }
        assert forall|q: int, l: int| 0 <= q < l < out@.len() implies key_of((#[trigger] out@[q]).canonical) != key_of((#[trigger] out@[l]).canonical) by {
            assert(out@[q].canonical == unsorted@[order@[q] as int].canonical && out@[q].rows@ == unsorted@[order@[q] as int].rows@);
            assert(out@[l].canonical == unsorted@[order@[l] as int].canonical);
            assert(order@[q] != order@[l]);
        }
        assert forall|i: int|
            0 <= i < threads@.len() && (#[trigger] key_of(threads@[i])) is Some implies exists|q: int|
                0 <= q < out@.len() && key_of(#[trigger] out@[q].canonical) == key_of(threads@[i]) by {
            let a = choose|a: int| 0 <= a < keys@.len() && keys@[a] == key_of(threads@[i])->0;
            assert(order@.contains(a as usize));
            let q = choose|q: int| 0 <= q < order@.len() && order@[q] == a as usize;
            assert(out@[q].canonical == unsorted@[a].canonical);
        }
        assert forall|q: int, l: int| 0 <= q < l < out@.len() implies out@[q].canonical.id <= out@[l].canonical.id by {
            assert(ranks_before(zeros@, ids@, order@[q], order@[l]));
            assert(out@[q].canonical == unsorted@[order@[q] as int].canonical && out@[q].rows@ == unsorted@[order@[q] as int].rows@);
            assert(out@[l].canonical == unsorted@[order@[l] as int].canonical);
        }
    }
    out
}

impl Conversation {
    /// A copy of this conversation.
    pub fn clone_conversation(&self) -> (r: Conversation)
        ensures
            r.canonical == self.canonical,
            r.rows@ == self.rows@,
    {
        Conversation { canonical: self.canonical, rows: self.rows.clone() }
    }
}

/// The conversation of `threads` keyed `key` (which some thread carries).
fn conversation_for(threads: &[DmThread], key: (u128, u128)) -> (conv: Conversation)
    requires
        keyed(threads@, key),
    ensures
        key_of(conv.canonical) == Some(key),
        is_conversation(threads@, key, conv),
{
    let c = canonical_of(threads, key);
    let mut ids: Vec<u128> = Vec::new();
    let mut i: usize = 0;
    while i < threads.len()
        invariant
            i <= threads@.len(),
            ids@ == ids_with_key(threads@.take(i as int), key),
        decreases threads.len() - i,
    {
        proof {
            assert(threads@.take(i + 1).drop_last() =~= threads@.take(i as int));
            assert(threads@.take(i + 1).last() == threads@[i as int]);
        }
        if has_key(&threads[i], key) {
            ids.push(threads[i].id);
        }
        i += 1;
    }
    assert(threads@.take(threads@.len() as int) =~= threads@);
    let rows = sort_ids(&ids);
    Conversation { canonical: threads[c], rows }
}



/// `x` sorts before (or with) `y`: larger first key first, then smaller
/// second key.
pub open spec fn ranks_before(k1: Seq<i64>, k2: Seq<u128>, x: usize, y: usize) -> bool {
    k1[x as int] > k1[y as int] || (k1[x as int] == k1[y as int] && k2[x as int] <= k2[y as int])
}

pub open spec fn ranked(order: Seq<usize>, k1: Seq<i64>, k2: Seq<u128>) -> bool {
    forall|k: int, l: int| 0 <= k < l < order.len() ==> ranks_before(k1, k2, #[trigger] order[k], #[trigger] order[l])
}

proof fn lemma_insert_set(s: Seq<usize>, pos: int, x: usize)
    requires
        0 <= pos <= s.len(),
    ensures
        s.insert(pos, x).to_set() == s.to_set().insert(x),
        s.no_duplicates() && !s.contains(x) ==> s.insert(pos, x).no_duplicates(),
{
    let t = s.insert(pos, x);
    s.insert_ensures(pos, x);
    assert forall|y: usize| t.to_set().contains(y) implies s.to_set().insert(x).contains(y) by {
        let j = choose|j: int| 0 <= j < t.len() && t[j] == y;
        if j < pos {
            assert(s[j] == y);
        } else if j > pos {
            assert(s[j - 1] == y);
        }
    }
    assert forall|y: usize| s.to_set().insert(x).contains(y) implies t.to_set().contains(y) by {
        if y == x {
            assert(t[pos] == y);
        } else {
            let j = choose|j: int| 0 <= j < s.len() && s[j] == y;
            if j < pos {
                assert(t[j] == y);
            } else {
                assert(t[j + 1] == y);
            }
        }
    }
    assert(t.to_set() =~= s.to_set().insert(x));
    if s.no_duplicates() && !s.contains(x) {
        assert forall|a: int, b: int| 0 <= a < b < t.len() implies t[a] != t[b] by {
            let a2 = if a < pos { a } else { a - 1 };
            let b2 = if b < pos { b } else { b - 1 };
            if a == pos {
                assert(t[b] == s[b2]);
            } else if b == pos {
                assert(t[a] == s[a2]);
            } else {
                assert(t[a] == s[a2] && t[b] == s[b2]);
            }
        }
    }
}

/// Insert position `i` into `order`, keeping it ranked.
fn insert_ranked(order: &mut Vec<usize>, i: usize, k1: &[i64], k2: &[u128]) -> (pos: usize)
    requires
        i < k1@.len(),
        k1@.len() == k2@.len(),
        forall|k: int| 0 <= k < old(order)@.len() ==> #[trigger] old(order)@[k] < k1@.len(),
        ranked(old(order)@, k1@, k2@),
    ensures
        pos <= old(order)@.len(),
        final(order)@ == old(order)@.insert(pos as int, i),
        ranked(final(order)@, k1@, k2@),
{
    let ghost before = order@;
    let mut pos: usize = 0;
    while pos < order.len() && (k1[order[pos]] > k1[i] || (k1[order[pos]] == k1[i] && k2[order[pos]] <= k2[i]))
        invariant
            order@ == before,
            pos <= order@.len(),
            k1@.len() == k2@.len(),
            i < k1@.len(),
            forall|k: int| 0 <= k < order@.len() ==> #[trigger] order@[k] < k1@.len(),
            forall|k: int| 0 <= k < pos ==> ranks_before(k1@, k2@, #[trigger] order@[k], i),
        decreases order.len() - pos,
    {
        pos += 1;
    }
    order.insert(pos, i);
    proof {
        before.insert_ensures(pos as int, i);
        let t = order@;
        assert forall|k: int, l: int| 0 <= k < l < t.len() implies ranks_before(k1@, k2@, #[trigger] t[k], #[trigger] t[l]) by {
            if l < pos {
                assert(t[k] == before[k] && t[l] == before[l]);
            } else if l == pos {
                assert(t[k] == before[k]);
            } else if k == pos {
                assert(t[l] == before[l - 1]);
                if l - 1 > pos {
                    assert(ranks_before(k1@, k2@, before[pos as int], before[l - 1]));
                }
            } else if k < pos {
                assert(t[k] == before[k] && t[l] == before[l - 1]);
            } else {
                assert(t[k] == before[k - 1] && t[l] == before[l - 1]);
            }
        }
    }
    pos
}

/// What the sidebar lists, as positions in `convs`: conversations with any
/// activity, most recent first, then by canonical id. `activity` holds, for
/// each conversation, the newest message timestamp across all its rows (zero
/// for none); a conversation with no messages is not listed.
pub fn sidebar_order(convs: &[Conversation], activity: &[i64]) -> (order: Vec<usize>)
    requires
        activity@.len() == convs@.len(),
    ensures
        order@.no_duplicates(),
        forall|i: int| 0 <= i < convs@.len() ==> (order@.contains(i as usize) <==> activity@[i] > 0),
        forall|k: int| 0 <= k < order@.len() ==> #[trigger] order@[k] < convs@.len(),
        forall|k: int, l: int|
            0 <= k < l < order@.len() ==> activity@[#[trigger] order@[k] as int] > activity@[#[trigger] order@[l] as int]
                || (activity@[order@[k] as int] == activity@[order@[l] as int] && convs@[order@[k] as int].canonical.id
                <= convs@[order@[l] as int].canonical.id),
{
    let mut ids: Vec<u128> = Vec::new();
    let mut j: usize = 0;
    while j < convs.len()
        invariant
            j <= convs@.len(),
            ids@.len() == j,
            forall|k: int| 0 <= k < j ==> #[trigger] ids@[k] == convs@[k].canonical.id,
        decreases convs.len() - j,
    {
        ids.push(convs[j].canonical.id);
        j += 1;
    }
    let mut order: Vec<usize> = Vec::new();
    let mut i: usize = 0;
    while i < convs.len()
        invariant
            i <= convs@.len(),
            activity@.len() == convs@.len(),
            ids@.len() == convs@.len(),
            forall|k: int| 0 <= k < convs@.len() ==> #[trigger] ids@[k] == convs@[k].canonical.id,
            order@.no_duplicates(),
            forall|k: int| 0 <= k < order@.len() ==> #[trigger] order@[k] < i,
            forall|j: int| 0 <= j < convs@.len() ==> (order@.contains(j as usize) <==> (j < i && activity@[j] > 0)),
            ranked(order@, activity@, ids@),
        decreases convs.len() - i,
    {
        if activity[i] > 0 {
            let ghost before = order@;
            let pos = insert_ranked(&mut order, i, activity, ids.as_slice());
            proof {
                lemma_insert_set(before, pos as int, i);
                before.insert_ensures(pos as int, i);
                assert forall|j: int| 0 <= j < convs@.len() implies (order@.contains(j as usize) <==> (j < i + 1
                    && activity@[j] > 0)) by {
                    assert(order@.contains(j as usize) == order@.to_set().contains(j as usize));
                    assert(before.contains(j as usize) == before.to_set().contains(j as usize));
                }
                assert forall|k: int| 0 <= k < order@.len() implies #[trigger] order@[k] < i + 1 by {
                    if k < pos {
                        assert(order@[k] == before[k]);
                    } else if k > pos {
                        assert(order@[k] == before[k - 1]);
                    }
                }
            }
        }
        i += 1;
    }
    proof {
        assert forall|k: int, l: int|
            0 <= k < l < order@.len() implies activity@[#[trigger] order@[k] as int] > activity@[#[trigger] order@[l] as int]
                || (activity@[order@[k] as int] == activity@[order@[l] as int] && convs@[order@[k] as int].canonical.id
                <= convs@[order@[l] as int].canonical.id) by {
            assert(ranks_before(activity@, ids@, order@[k], order@[l]));
        }
    }
    order
}

/// A member as the name lookups read it: an id and a display name (empty
/// when the store has none).
#[derive(Clone, Debug)]
pub struct Member {
    pub id: u128,
    pub name: String,
}

impl Member {
    /// A copy of this member.
    pub fn clone_member(&self) -> (r: Member)
        ensures
            r.id == self.id,
            r.name@ == self.name@,
    {
        Member { id: self.id, name: self.name.clone() }
    }
}

/// Position `i` holds the first member with id `who`.
pub open spec fn first_member(members: Seq<Member>, who: u128, i: int) -> bool {
    0 <= i < members.len() && members[i].id == who && forall|j: int| 0 <= j < i ==> members[j].id != who
}

/// The name of a correspondent: the first member with that id, if their
/// display name is not blank; otherwise "Unknown".
pub open spec fn display_name_spec(members: Seq<Member>, who: u128) -> Seq<char> {
    if exists|i: int| first_member(members, who, i) {
        let i = choose|i: int| first_member(members, who, i);
        if !all_ws(members[i].name@) {
            members[i].name@
        } else {
            "Unknown"@
        }
    } else {
        "Unknown"@
    }
}

pub fn display_name(members: &[Member], who: u128) -> (r: String)
    ensures
        r@ == display_name_spec(members@, who),
{
    let mut i: usize = 0;
    while i < members.len()
        invariant
            i <= members@.len(),
            forall|j: int| 0 <= j < i ==> members@[j].id != who,
        decreases members.len() - i,
    {
        if members[i].id == who {
            proof {
                assert(first_member(members@, who, i as int));
                let w = choose|w: int| first_member(members@, who, w);
                assert(w == i) by {
                    if w < i {
                    } else if w > i {
                        assert(members@[i as int].id == who);
                    }
                }
            }
            if is_blank(members[i].name.as_str()) {
                return String::from_str("Unknown");
            }
            return members[i].name.clone();
        }
        i += 1;
    }
    String::from_str("Unknown")
}

/// Why a direct message was refused.
#[derive(Clone, Copy, PartialEq, Eq, Debug)]
pub enum DmError {
    /// A conversation with oneself has no other participant to name, notify
    /// or scope a read to.
    SelfConversation,
}

/// Whether `viewer` may send into the conversation with `partner`: not when
/// the two ends are the same person (which a session swap can produce
/// without anyone selecting it).
pub fn check_dm_send(viewer: u128, partner: u128) -> (r: Result<(), DmError>)
    ensures
        r is Err <==> partner == viewer,
        r matches Err(e) ==> e == DmError::SelfConversation,
{
    if partner == viewer {
        Err(DmError::SelfConversation)
    } else {
        Ok(())
    }
}

/// What opening a conversation with `partner` does.
#[derive(Clone, Copy, PartialEq, Eq, Debug)]
pub enum OpenThread {
    /// Select the partner now, and find or create the pair's thread as this
    /// reader.
    Open(u128),
    /// Nobody is signed in: raise the auth demand.
    DemandAuth,
    /// The handshake has ended: nothing.
    Refuse,
    /// The partner is the reader: refuse.
    WithSelf,
}

pub fn open_thread_with(write: WriteSession, partner: u128) -> (r: OpenThread)
    ensures
        write matches WriteSession::Write(me) ==> (r == if partner == me {
            OpenThread::WithSelf
        } else {
            OpenThread::Open(me)
        }),
        write is DemandAuth ==> r is DemandAuth,
        write is Refuse ==> r is Refuse,
{
    match write {
        WriteSession::Write(me) => {
            if partner == me {
                OpenThread::WithSelf
            } else {
                OpenThread::Open(me)
            }
        },
        WriteSession::DemandAuth => OpenThread::DemandAuth,
        WriteSession::Refuse => OpenThread::Refuse,
    }
}

/// Of the threads a find-or-create lookup returned for a pair, the one to
/// write into: the first holding the lowest id. `None` means create one.
pub fn pick_thread(existing: &[DmThread]) -> (r: Option<usize>)
    ensures
        existing@.len() == 0 <==> r is None,
        r matches Some(k) ==> k < existing@.len() && forall|j: int|
            0 <= j < existing@.len() ==> existing@[k as int].id <= existing@[j].id && (existing@[j].id
                == existing@[k as int].id ==> k <= j),
{
    if existing.len() == 0 {
        return None;
    }
    let mut best: usize = 0;
    let mut i: usize = 1;
    while i < existing.len()
        invariant
            1 <= i <= existing@.len(),
            best < i,
            forall|j: int|
                0 <= j < i ==> existing@[best as int].id <= existing@[j].id && (existing@[j].id
                    == existing@[best as int].id ==> best <= j),
        decreases existing.len() - i,
    {
        if existing[i].id < existing[best].id {
            best = i;
        }
        i += 1;
    }
    Some(best)
}

/// The message predicate for a conversation spread over `rows` thread rows:
/// one `thread = ?` per row, joined with `OR` (the ids are bound as
/// parameters, never spliced). Nothing for no rows.
pub open spec fn thread_predicate_spec(rows: nat) -> Seq<char>
    decreases rows,
{
    if rows <= 1 {
        "thread = ?"@
    } else {
        thread_predicate_spec((rows - 1) as nat) + " OR "@ + "thread = ?"@
    }
}

pub fn thread_predicate(rows: usize) -> (r: Option<String>)
    ensures
        rows == 0 <==> r is None,
        r matches Some(p) ==> p@ == thread_predicate_spec(rows as nat),
{
    if rows == 0 {
        return None;
    }
    let mut p = String::from_str("thread = ?");
    let mut k: usize = 1;
    while k < rows
        invariant
            1 <= k <= rows,
            p@ == thread_predicate_spec(k as nat),
        decreases rows - k,
    {
        p.append(" OR ");
        p.append("thread = ?");
        k += 1;
        assert(p@ =~= thread_predicate_spec(k as nat));
    }
    Some(p)
}

/// The name a conversation shows for its correspondent: the partner's
/// display name, or `self_label` when the viewer is not one end of it (or
/// both), or nobody is signed in.
pub fn correspondent_name(thread: &DmThread, viewer: Option<u128>, members: &[Member], self_label: &str) -> (r:
    String)
    ensures
        ({
            let partner = match viewer {
                Some(v) => match (thread.a, thread.b) {
                    (Some(a), Some(b)) => partner_spec(a, b, v),
                    _ => None,
                },
                None => None,
            };
            match partner {
                Some(p) => r@ == display_name_spec(members@, p),
                None => r@ == self_label@,
            }
        }),
{
    let partner = match viewer {
        Some(v) => partner_of(thread, v),
        None => None,
    };
    match partner {
        Some(p) => display_name(members, p),
        None => String::from_str(self_label),
    }
}

/// The sum of a conversation's per-row unread counts.
pub open spec fn sum_counts(counts: Seq<usize>) -> nat
    decreases counts.len(),
{
    if counts.len() == 0 {
        0
    } else {
        sum_counts(counts.drop_last()) + (counts.last() as nat)
    }
}

/// A conversation's unread count: across every row of the pair, because
/// unread messages can sit in a race twin.
pub fn unread_total(counts: &[usize]) -> (r: usize)
    requires
        sum_counts(counts@) <= usize::MAX,
    ensures
        r == sum_counts(counts@),
{
    let mut total: usize = 0;
    let mut i: usize = 0;
    while i < counts.len()
        invariant
            i <= counts@.len(),
            sum_counts(counts@) <= usize::MAX,
            total == sum_counts(counts@.subrange(0, i as int)),
        decreases counts.len() - i,
    {
        proof {
            let t = counts@.subrange(0, i + 1);
            assert(t.drop_last() =~= counts@.subrange(0, i as int));
            lemma_sum_prefix(counts@, i + 1);
        }
        total = total + counts[i];
        i += 1;
    }
    assert(counts@.subrange(0, counts@.len() as int) =~= counts@);
    total
}

proof fn lemma_sum_prefix(s: Seq<usize>, k: int)
    requires
        0 <= k <= s.len(),
    ensures
        sum_counts(s.subrange(0, k)) <= sum_counts(s),
    decreases s.len() - k,
{
    if k < s.len() {
        lemma_sum_prefix(s, k + 1);
        let t = s.subrange(0, k + 1);
        assert(t.drop_last() =~= s.subrange(0, k));
    } else {
        assert(s.subrange(0, k) =~= s);
    }
}

/// A conversation's activity: the newest message timestamp across all of
/// its rows, zero when none has a message.
pub fn conversation_activity(newest: &[i64]) -> (r: i64)
    ensures
        newest@.len() == 0 ==> r == 0,
        newest@.len() > 0 ==> (exists|i: int| 0 <= i < newest@.len() && newest@[i] == r) && forall|i: int|
            0 <= i < newest@.len() ==> newest@[i] <= r,
{
    if newest.len() == 0 {
        return 0;
    }
    let mut m = newest[0];
    let mut i: usize = 1;
    while i < newest.len()
        invariant
            1 <= i <= newest@.len(),
            exists|j: int| 0 <= j < i && newest@[j] == m,
            forall|j: int| 0 <= j < i ==> newest@[j] <= m,
        decreases newest.len() - i,
    {
        if newest[i] > m {
            m = newest[i];
        }
        i += 1;
    }
    m
}

/// Neither side can miss a thread the other created: the pair is the same
/// from either seat, so both readers look up, read and group exactly the
/// same rows.
pub proof fn law_pair_from_either_seat(threads: Seq<DmThread>, x: u128, y: u128)
    ensures
        pair_of(x, y) == pair_of(y, x),
        ids_with_key(threads, pair_of(x, y)) == ids_with_key(threads, pair_of(y, x)),
        forall|t: DmThread| t.a == Some(x) && t.b == Some(y) ==> key_of(t) == Some(pair_of(y, x)),
{
}

/// The partner of the partner is the reader: each end of a two-person
/// conversation names the other.
pub proof fn law_partner_names_the_other_end(a: u128, b: u128, viewer: u128)
    ensures
        partner_spec(a, b, viewer) matches Some(p) ==> p != viewer && partner_spec(a, b, p) == Some(viewer),
        a != b ==> partner_spec(a, b, a) == Some(b) && partner_spec(a, b, b) == Some(a),
{
}

} // verus!

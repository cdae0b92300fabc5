//! The timelines' bookkeeping: which users a room timeline still has to
//! resolve, the id-to-name map mention chips render from, and the layout of a
//! direct-message row.
//!
//! A room timeline names users by following each message's own refs (its
//! author, everyone it mentions, and the author of the message it replies
//! to) rather than by listing the roster, which a signed-out reader may not
//! read. Each id is resolved once per session, reached by however many
//! routes; each reply target is followed once; and a session swap forgets
//! all of it, so the arriving session fills a fresh map.
use vstd::prelude::*;
use vstd::hash_set::HashSetWithView;

use crate::dm::Member;

verus! {

broadcast use vstd::std_specs::hash::group_hash_axioms;

/// The names mention chips can show: every resolved user with a non-empty
/// display name, in input order. An id whose resolution failed (`None`) or
/// that has no name is absent, and renders the "@unknown" fallback.
pub open spec fn named_users_spec(resolved: Seq<(u128, Option<Seq<char>>)>) -> Seq<(u128, Seq<char>)>
    decreases resolved.len(),
{
    if resolved.len() == 0 {
        Seq::empty()
    } else {
        let rest = named_users_spec(resolved.drop_last());
        let (id, name) = resolved.last();
        match name {
            Some(n) => if n.len() > 0 {
                rest.push((id, n))
            } else {
                rest
            },
            None => rest,
        }
    }
}

pub open spec fn resolved_view(resolved: Seq<(u128, Option<String>)>) -> Seq<(u128, Option<Seq<char>>)> {
    resolved.map_values(
        |e: (u128, Option<String>)|
            (
                e.0,
                match e.1 {
                    Some(s) => Some(s@),
                    None => None,
                },
            ),
    )
}

pub open spec fn members_view(members: Seq<Member>) -> Seq<(u128, Seq<char>)> {
    members.map_values(|m: Member| (m.id, m.name@))
}

pub fn named_users(resolved: &[(u128, Option<String>)]) -> (r: Vec<Member>)
    ensures
        members_view(r@) == named_users_spec(resolved_view(resolved@)),
{
    let mut r: Vec<Member> = Vec::new();
    let mut i: usize = 0;
    while i < resolved.len()
        invariant
            i <= resolved@.len(),
            members_view(r@) == named_users_spec(resolved_view(resolved@.subrange(0, i as int))),
        decreases resolved.len() - i,
    {
        let ghost before = r@;
        proof {
            let t = resolved@.subrange(0, i + 1);
            assert(t.drop_last() =~= resolved@.subrange(0, i as int));
            assert(resolved_view(t).drop_last() =~= resolved_view(resolved@.subrange(0, i as int)));
            assert(resolved_view(t).last() == resolved_view(resolved@)[i as int]);
        }
        let (id, name) = &resolved[i];
        if let Some(n) = name {
            if n.unicode_len() > 0 {
                r.push(Member { id: *id, name: n.clone() });
                assert(members_view(r@) =~= members_view(before).push((*id, n@)));
            }
        }
        i += 1;
    }
    assert(resolved@.subrange(0, resolved@.len() as int) =~= resolved@);
    r
}

/// What the tracker knows: the session generation it was last used in, the
/// user ids already resolved or in flight, and the reply targets already
/// followed.
pub struct TrackerState {
    pub built_for: Option<u64>,
    pub requested: Set<u128>,
    pub followed: Set<u128>,
}

/// Which user ids and reply targets a room timeline has already sent for,
/// per session.
pub struct ResolveTracker {
    built_for: Option<u64>,
    requested: HashSetWithView<u128>,
    followed: HashSetWithView<u128>,
}

impl View for ResolveTracker {
    type V = TrackerState;

    closed spec fn view(&self) -> TrackerState {
        TrackerState { built_for: self.built_for, requested: self.requested@, followed: self.followed@ }
    }
}

/// A pass over the timeline under session `generation`: a different session
/// than the last pass forgets everything sent for.
pub open spec fn begin_spec(s: TrackerState, generation: u64) -> (TrackerState, bool) {
    if s.built_for is Some && s.built_for != Some(generation) {
        (TrackerState { built_for: Some(generation), requested: Set::empty(), followed: Set::empty() }, true)
    } else {
        (TrackerState { built_for: Some(generation), ..s }, false)
    }
}

/// Claim the resolution of user `id`: true the first time, false once it is
/// resolved or in flight.
pub open spec fn claim_user_spec(s: TrackerState, id: u128) -> (TrackerState, bool) {
    (TrackerState { requested: s.requested.insert(id), ..s }, !s.requested.contains(id))
}

/// Claim following reply target `id`: true the first time only.
pub open spec fn claim_target_spec(s: TrackerState, id: u128) -> (TrackerState, bool) {
    (TrackerState { followed: s.followed.insert(id), ..s }, !s.followed.contains(id))
}

impl ResolveTracker {
    pub fn new() -> (r: ResolveTracker)
        ensures
            r@.built_for is None,
            r@.requested == Set::<u128>::empty(),
            r@.followed == Set::<u128>::empty(),
    {
        ResolveTracker { built_for: None, requested: HashSetWithView::new(), followed: HashSetWithView::new() }
    }

    /// Start a pass under session `generation`; whether everything sent for
    /// was forgotten (the caller then empties its name map too).
    pub fn begin(&mut self, generation: u64) -> (cleared: bool)
        ensures
            (final(self)@, cleared) == begin_spec(old(self)@, generation),
    {
        let stale = match self.built_for {
            Some(prev) => prev != generation,
            None => false,
        };
        if stale {
            self.requested.clear();
            self.followed.clear();
        }
        self.built_for = Some(generation);
        stale
    }

    pub fn claim_user(&mut self, id: u128) -> (first: bool)
        ensures
            (final(self)@, first) == claim_user_spec(old(self)@, id),
    {
        self.requested.insert(id)
    }

    pub fn claim_target(&mut self, id: u128) -> (first: bool)
        ensures
            (final(self)@, first) == claim_target_spec(old(self)@, id),
    {
        self.followed.insert(id)
    }
}

/// A resolution lands in the map only if no session swap happened since it
/// was sent for.
pub fn resolution_lands(sent_in: u64, current: u64) -> (r: bool)
    ensures
        r == (sent_in == current),
{
    sent_in == current
}

/// Within a session, an id reached by any number of routes is resolved once:
/// a second claim of it is refused, whatever was claimed in between.
pub proof fn law_resolve_once(s: TrackerState, id: u128, others: Seq<u128>)
    ensures
        ({
            let (s1, first) = claim_user_spec(s, id);
            let later = others.fold_left(s1, |t: TrackerState, o: u128| claim_user_spec(t, o).0);
            !claim_user_spec(later, id).1
        }),
    decreases others.len(),
{
    let (s1, _) = claim_user_spec(s, id);
    lemma_claims_keep(s1, id, others);
}

proof fn lemma_claims_keep(s: TrackerState, id: u128, others: Seq<u128>)
    requires
        s.requested.contains(id),
    ensures
        others.fold_left(s, |t: TrackerState, o: u128| claim_user_spec(t, o).0).requested.contains(id),
    decreases others.len(),
{
    if others.len() > 0 {
        let f = |t: TrackerState, o: u128| claim_user_spec(t, o).0;
        lemma_claims_keep(s, id, others.drop_last());
        assert(others.fold_left(s, f) == f(others.drop_last().fold_left(s, f), others.last()));
    }
}

/// A session swap forgets everything sent for: the arriving session resolves
/// every id afresh. The same session keeps it all.
pub proof fn law_session_swap_forgets(s: TrackerState, generation: u64, id: u128)
    ensures
        s.built_for is Some && s.built_for != Some(generation) ==> claim_user_spec(begin_spec(s, generation).0, id).1
            && claim_target_spec(begin_spec(s, generation).0, id).1,
        s.built_for == Some(generation) ==> begin_spec(s, generation).0 == s,
{
}

/// How a direct-message row is laid out.
pub struct DmRowLayout {
    /// The reader wrote it.
    pub own: bool,
    pub row_class: String,
    pub bubble_class: String,
    /// The avatar gutter: other people's messages only.
    pub gutter: bool,
    /// The avatar inside the gutter: the first of a group.
    pub avatar: bool,
    /// The author and time line: the first of a group (time only for the
    /// reader's own).
    pub meta: bool,
    /// The author's name in that line.
    pub author_name: bool,
    /// "Message removed" in place of the text.
    pub tombstone: bool,
    /// The "(edited)" marker after the text.
    pub edited_marker: bool,
}

pub open spec fn row_class_spec(own: bool, first: bool, last: bool) -> Seq<char> {
    "messageRow"@ + (if own {
        " own"@
    } else {
        Seq::empty()
    }) + (if first {
        " groupFirst"@
    } else {
        Seq::empty()
    }) + (if last {
        " groupLast"@
    } else {
        Seq::empty()
    })
}

pub open spec fn bubble_class_spec(own: bool, deleted: bool) -> Seq<char> {
    "messageBubble"@ + (if own {
        " ownMessage"@
    } else {
        Seq::empty()
    }) + (if deleted {
        " tombstone"@
    } else {
        Seq::empty()
    })
}

/// Lay out a direct-message row by `author` for `viewer` at a group's
/// `first`/`last` edge; `deleted` and `edited` are the message's flags.
pub fn dm_row_layout(
    author: Option<u128>,
    viewer: Option<u128>,
    first: bool,
    last: bool,
    deleted: Option<bool>,
    edited: bool,
) -> (r: DmRowLayout)
    ensures
        r.own == (author is Some && author == viewer),
        r.row_class@ == row_class_spec(r.own, first, last),
        r.bubble_class@ == bubble_class_spec(r.own, deleted == Some(true)),
        r.gutter == !r.own,
        r.avatar == (!r.own && first),
        r.meta == first,
        r.author_name == (first && !r.own),
        r.tombstone == (deleted == Some(true)),
        r.edited_marker == (deleted != Some(true) && edited),
{
    let own = match (author, viewer) {
        (Some(a), Some(v)) => a == v,
        _ => false,
    };
    let is_deleted = match deleted {
        Some(d) => d,
        None => false,
    };
    let mut row_class = String::from_str("messageRow");
    if own {
        row_class.append(" own");
    }
    if first {
        row_class.append(" groupFirst");
    }
    if last {
        row_class.append(" groupLast");
    }
    let mut bubble_class = String::from_str("messageBubble");
    if own {
        bubble_class.append(" ownMessage");
    }
    if is_deleted {
        bubble_class.append(" tombstone");
    }
    proof {
        assert(row_class@ =~= row_class_spec(own, first, last));
        assert(bubble_class@ =~= bubble_class_spec(own, is_deleted));
    }
    DmRowLayout {
        own,
        row_class,
        bubble_class,
        gutter: !own,
        avatar: !own && first,
        meta: first,
        author_name: first && !own,
        tombstone: is_deleted,
        edited_marker: !is_deleted && edited,
    }
}

/// The empty state of a conversation with no messages.
pub fn empty_thread_title(partner_name: &str) -> (r: String)
    ensures
        r@ == "No messages with "@ + partner_name@ + " yet"@,
{
    let mut r = String::from_str("No messages with ");
    r.append(partner_name);
    r.append(" yet");
    r
}

} // verus!

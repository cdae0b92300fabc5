//! Persistent per-room read cursors and the unread badges they drive.
//!
//! A room's unread count is "messages in its newest-messages window newer than
//! the reader's cursor, authored by someone else". The window holds the ten
//! newest messages, so counts cap at ten, which the badge renders as "10+".
//!
//! `mark_read(room, ts)` is called whenever the reader is looking at the
//! bottom of a room. It does nothing unless `ts` advances the cursor; otherwise
//! the cursor moves at once (badges clear instantly) and a row upsert is
//! flushed in the background. A per-room in-flight mark coalesces a burst into
//! one flush loop, and a "flushed" watermark is what that loop chases: it
//! keeps upserting while the cursor is ahead of the watermark. A remembered
//! created-row id keeps a second upsert from creating a twin row before the
//! reader's own rows catch up.
//!
//! Disposal is explicit and final: after it, a mark does nothing, a flush
//! loop stops at its next pass, and a write that has not committed yet is not
//! committed.
//!
//! Rooms are keyed by their entity id.
use vstd::prelude::*;
use vstd::hash_map::HashMapWithView;
use vstd::hash_set::HashSetWithView;

verus! {

broadcast use vstd::std_specs::hash::group_hash_axioms;

/// One message of a room's newest-messages window, as the badge reads it:
/// its timestamp and its author, `None` where the store could not decode
/// them.
#[derive(Clone, Copy, PartialEq, Eq, Debug)]
pub struct WindowMessage {
    pub timestamp: Option<i64>,
    pub author: Option<u128>,
}

/// One of the reader's own read-state rows.
#[derive(Clone, Copy, PartialEq, Eq, Debug)]
pub struct ReadStateRow {
    pub id: u128,
    pub room: Option<u128>,
    pub last_read_ts: Option<i64>,
}

/// What a mark did.
#[derive(Clone, Copy, PartialEq, Eq, Debug)]
pub enum MarkRead {
    /// Nothing: the manager is disposed, or `ts` does not advance the cursor.
    Ignored,
    /// The cursor moved and the room's badge was recounted against it
    /// (`badge_changed` says whether the count changed). The caller starts a
    /// flush loop for the room if `start_flush` (otherwise one is already
    /// running and will pick this up).
    Advanced { start_flush: bool, badge_changed: bool },
}

/// The next pass of a room's flush loop.
#[derive(Clone, Copy, PartialEq, Eq, Debug)]
pub enum FlushStep {
    /// Done: disposed, or the watermark has caught the cursor.
    Stop,
    /// Upsert the room's row to this cursor value.
    Upsert(i64),
}

/// Which row an upsert writes.
#[derive(Clone, Copy, PartialEq, Eq, Debug)]
pub enum UpsertTarget {
    /// Edit this row, one of the reader's rows already delivered.
    Edit(u128),
    /// Fetch and edit the row this client created earlier, not delivered yet;
    /// create one if it cannot be fetched.
    Fetch(u128),
    /// Create the room's row.
    Create,
}

/// The abstract state of a manager.
pub struct CursorState {
    pub user: u128,
    pub disposed: bool,
    pub ready: bool,
    pub last_read: Map<u128, i64>,
    pub flushed: Map<u128, i64>,
    pub in_flight: Set<u128>,
    pub row_ids: Map<u128, u128>,
    pub unread: Map<u128, usize>,
    pub windows: Set<u128>,
}

/// A map lookup that reads a missing key as zero, as the cursors do.
pub open spec fn get0(m: Map<u128, i64>, k: u128) -> i64 {
    if m.contains_key(k) {
        m[k]
    } else {
        0
    }
}

pub open spec fn count0(m: Map<u128, usize>, k: u128) -> usize {
    if m.contains_key(k) {
        m[k]
    } else {
        0
    }
}

pub open spec fn max64(a: i64, b: i64) -> i64 {
    if a >= b {
        a
    } else {
        b
    }
}

/// Whether a window message is unread for `user` at `cursor`: newer than the
/// cursor, and not the reader's own (a message whose author cannot be read
/// counts as someone else's; one whose timestamp cannot be read, as read).
pub open spec fn is_unread(m: WindowMessage, cursor: i64, user: u128) -> bool {
    &&& m.timestamp matches Some(ts) && ts > cursor
    &&& m.author != Some(user)
}

/// How many of `items` are unread.
pub open spec fn unread_in(items: Seq<WindowMessage>, cursor: i64, user: u128) -> nat
    decreases items.len(),
{
    if items.len() == 0 {
        0
    } else {
        unread_in(items.drop_last(), cursor, user) + if is_unread(items.last(), cursor, user) {
            1nat
        } else {
            0nat
        }
    }
}

/// A room never counts more unread messages than its window holds.
pub proof fn law_unread_within_window(items: Seq<WindowMessage>, cursor: i64, user: u128)
    ensures
        unread_in(items, cursor, user) <= items.len(),
    decreases items.len(),
{
    if items.len() > 0 {
        law_unread_within_window(items.drop_last(), cursor, user);
    }
}

/// One row's contribution to a cursor map: the max of what is there (zero
/// if nothing) and the row's value.
pub open spec fn absorb_row(m: Map<u128, i64>, row: ReadStateRow) -> Map<u128, i64> {
    match (row.room, row.last_read_ts) {
        (Some(room), Some(ts)) => m.insert(room, max64(get0(m, room), ts)),
        _ => m,
    }
}

/// A cursor map after absorbing `rows`, in order.
pub open spec fn absorb_rows(m: Map<u128, i64>, rows: Seq<ReadStateRow>) -> Map<u128, i64>
    decreases rows.len(),
{
    if rows.len() == 0 {
        m
    } else {
        absorb_row(absorb_rows(m, rows.drop_last()), rows.last())
    }
}

proof fn lemma_absorb_monotone(m: Map<u128, i64>, rows: Seq<ReadStateRow>, k: u128)
    ensures
        get0(absorb_rows(m, rows), k) >= get0(m, k),
        m.contains_key(k) ==> absorb_rows(m, rows).contains_key(k),
    decreases rows.len(),
{
    if rows.len() > 0 {
        lemma_absorb_monotone(m, rows.drop_last(), k);
    }
}

impl CursorState {
    pub open spec fn cursor(self, room: u128) -> i64 {
        get0(self.last_read, room)
    }

    pub open spec fn watermark(self, room: u128) -> i64 {
        get0(self.flushed, room)
    }

    /// A mark of `room` up to `ts`, with `items` the messages of the room's
    /// window: the cursor moves to `ts` only if that advances it, and then
    /// the room's badge is recounted against the new cursor at once.
    pub open spec fn mark_read_spec(self, room: u128, ts: i64, items: Seq<WindowMessage>) -> (CursorState, MarkRead) {
        if self.disposed || ts <= self.cursor(room) {
            (self, MarkRead::Ignored)
        } else {
            let moved = CursorState { last_read: self.last_read.insert(room, ts), ..self };
            let counted = moved.recompute_spec(room, items);
            (
                CursorState { in_flight: self.in_flight.insert(room), ..counted.0 },
                MarkRead::Advanced { start_flush: !self.in_flight.contains(room), badge_changed: counted.1 },
            )
        }
    }

    pub open spec fn flush_step_spec(self, room: u128) -> FlushStep {
        if self.disposed || self.cursor(room) <= self.watermark(room) {
            FlushStep::Stop
        } else {
            FlushStep::Upsert(self.cursor(room))
        }
    }

    pub open spec fn flush_succeeded_spec(self, room: u128, written: i64) -> CursorState {
        CursorState { flushed: self.flushed.insert(room, max64(self.watermark(room), written)), ..self }
    }

    pub open spec fn flush_finished_spec(self, room: u128) -> CursorState {
        CursorState { in_flight: self.in_flight.remove(room), ..self }
    }

    pub open spec fn unread_count_spec(self, room: u128) -> usize {
        if !self.ready {
            0
        } else {
            count0(self.unread, room)
        }
    }

    pub open spec fn recompute_spec(self, room: u128, items: Seq<WindowMessage>) -> (CursorState, bool) {
        if !self.windows.contains(room) {
            (self, false)
        } else {
            let count = unread_in(items, self.cursor(room), self.user);
            if count == count0(self.unread, room) {
                (self, false)
            } else if count == 0 {
                (CursorState { unread: self.unread.remove(room), ..self }, true)
            } else {
                (CursorState { unread: self.unread.insert(room, count as usize), ..self }, true)
            }
        }
    }

    pub open spec fn dispose_spec(self) -> CursorState {
        CursorState { disposed: true, windows: Set::empty(), ..self }
    }
}

/// The reader's per-room read cursors and unread counts.
pub struct ReadStateManager {
    user: u128,
    disposed: bool,
    ready: bool,
    last_read: HashMapWithView<u128, i64>,
    flushed: HashMapWithView<u128, i64>,
    in_flight: HashSetWithView<u128>,
    row_ids: HashMapWithView<u128, u128>,
    unread: HashMapWithView<u128, usize>,
    windows: Vec<u128>,
}

impl View for ReadStateManager {
    type V = CursorState;

    closed spec fn view(&self) -> CursorState {
        CursorState {
            user: self.user,
            disposed: self.disposed,
            ready: self.ready,
            last_read: self.last_read@,
            flushed: self.flushed@,
            in_flight: self.in_flight@,
            row_ids: self.row_ids@,
            unread: self.unread@,
            windows: self.windows@.to_set(),
        }
    }
}

fn get_or_zero(m: &HashMapWithView<u128, i64>, k: u128) -> (r: i64)
    ensures
        r == get0(m@, k),
{
    match m.get(&k) {
        Some(v) => *v,
        None => 0,
    }
}

impl ReadStateManager {
    /// The window list holds no room twice.
    pub closed spec fn wf(&self) -> bool {
        self.windows@.no_duplicates()
    }

    /// A manager for `user`'s cursors, with nothing loaded yet.
    pub fn new(user: u128) -> (r: Self)
        ensures
            r.wf(),
            r@.user == user,
            !r@.disposed,
            !r@.ready,
            r@.last_read == Map::<u128, i64>::empty(),
            r@.flushed == Map::<u128, i64>::empty(),
            r@.in_flight == Set::<u128>::empty(),
            r@.row_ids == Map::<u128, u128>::empty(),
            r@.unread == Map::<u128, usize>::empty(),
            r@.windows == Set::<u128>::empty(),
    {
        let r = ReadStateManager {
            user,
            disposed: false,
            ready: false,
            last_read: HashMapWithView::new(),
            flushed: HashMapWithView::new(),
            in_flight: HashSetWithView::new(),
            row_ids: HashMapWithView::new(),
            unread: HashMapWithView::new(),
            windows: Vec::new(),
        };
        assert(r.windows@.to_set() =~= Set::<u128>::empty());
        r
    }

    pub fn user(&self) -> (r: u128)
        ensures
            r == self@.user,
    {
        self.user
    }

    pub fn is_disposed(&self) -> (r: bool)
        ensures
            r == self@.disposed,
    {
        self.disposed
    }

    /// End this manager now. Every later mark, flush pass and commit finds
    /// the flag and does nothing; the windows are forgotten (the caller drops
    /// their subscriptions).
    pub fn dispose(&mut self)
        requires
            old(self).wf(),
        ensures
            final(self).wf(),
            final(self)@ == old(self)@.dispose_spec(),
    {
        self.disposed = true;
        self.windows = Vec::new();
        assert(self.windows@.to_set() =~= Set::<u128>::empty());
    }

    /// The badge count for a room: zero until the reader's own rows have
    /// loaded once.
    pub fn unread_count(&self, room_id: u128) -> (r: usize)
        ensures
            r == self@.unread_count_spec(room_id),
    {
        if !self.ready {
            return 0;
        }
        match self.unread.get(&room_id) {
            Some(n) => *n,
            None => 0,
        }
    }

    /// Record that the reader has seen `room_id` up to `ts` (the newest
    /// visible message's timestamp), recounting the room's badge against the
    /// new cursor from `items`, the messages of the room's window.
    pub fn mark_read(&mut self, room_id: u128, ts: i64, items: &[WindowMessage]) -> (r: MarkRead)
        requires
            old(self).wf(),
        ensures
            final(self).wf(),
            (final(self)@, r) == old(self)@.mark_read_spec(room_id, ts, items@),
    {
        if self.disposed {
            return MarkRead::Ignored;
        }
        if ts <= get_or_zero(&self.last_read, room_id) {
            return MarkRead::Ignored;
        }
        self.last_read.insert(room_id, ts);
        let badge_changed = self.recompute_room(room_id, items);
        let start_flush = self.in_flight.insert(room_id);
        proof {
            assert(self@.in_flight =~= old(self)@.in_flight.insert(room_id));
        }
        MarkRead::Advanced { start_flush, badge_changed }
    }

    /// The reader's own rows arrived or changed: merge them into the cursors
    /// (the max of row and local value wins) and raise the watermarks to what
    /// the rows say is written. From now on badges count.
    pub fn on_read_states(&mut self, rows: &[ReadStateRow])
        requires
            old(self).wf(),
        ensures
            final(self).wf(),
            old(self)@.disposed ==> final(self)@ == old(self)@,
            !old(self)@.disposed ==> final(self)@ == (CursorState {
                last_read: absorb_rows(old(self)@.last_read, rows@),
                flushed: absorb_rows(old(self)@.flushed, rows@),
                ready: true,
                ..old(self)@
            }),
    {
        if self.disposed {
            return;
        }
        let mut i: usize = 0;
        while i < rows.len()
            invariant
                i <= rows@.len(),
                self.wf(),
                self@ == (CursorState {
                    last_read: absorb_rows(old(self)@.last_read, rows@.take(i as int)),
                    flushed: absorb_rows(old(self)@.flushed, rows@.take(i as int)),
                    ..old(self)@
                }),
            decreases rows.len() - i,
        {
            let row = rows[i];
            proof {
                assert(rows@.take(i + 1).drop_last() =~= rows@.take(i as int));
                assert(rows@.take(i + 1).last() == row);
            }
            if let (Some(room), Some(ts)) = (row.room, row.last_read_ts) {
                let cur = get_or_zero(&self.last_read, room);
                self.last_read.insert(room, if cur >= ts { cur } else { ts });
                let wm = get_or_zero(&self.flushed, room);
                self.flushed.insert(room, if wm >= ts { wm } else { ts });
            }
            i += 1;
        }
        assert(rows@.take(rows@.len() as int) =~= rows@);
        self.ready = true;
    }

    /// Whether a window should be opened for this room (none is open yet,
    /// and the manager is live).
    pub fn wants_window(&self, room_id: u128) -> (r: bool)
        ensures
            r == (!self@.disposed && !self@.windows.contains(room_id)),
    {
        if self.disposed {
            return false;
        }
        !self.has_window(room_id)
    }

    fn has_window(&self, room_id: u128) -> (r: bool)
        ensures
            r == self@.windows.contains(room_id),
    {
        let mut k: usize = 0;
        while k < self.windows.len()
            invariant
                k <= self.windows@.len(),
                forall|j: int| 0 <= j < k ==> self.windows@[j] != room_id,
            decreases self.windows.len() - k,
        {
            if self.windows[k] == room_id {
                assert(self.windows@.to_set().contains(room_id));
                return true;
            }
            k += 1;
        }
        proof {
            assert(!self.windows@.to_set().contains(room_id));
        }
        false
    }

    /// A window is now open for this room.
    pub fn add_window(&mut self, room_id: u128)
        requires
            old(self).wf(),
        ensures
            final(self).wf(),
            final(self)@ == (CursorState { windows: old(self)@.windows.insert(room_id), ..old(self)@ }),
    {
        if self.has_window(room_id) {
            assert(self@.windows.insert(room_id) =~= self@.windows);
            return;
        }
        let ghost before = self.windows@;
        self.windows.push(room_id);
        assert(self.windows@.to_set() =~= before.to_set().insert(room_id)) by {
            assert forall|x: u128| self.windows@.to_set().contains(x) implies before.to_set().insert(room_id).contains(x) by {
                let j = choose|j: int| 0 <= j < self.windows@.len() && self.windows@[j] == x;
                if j < before.len() {
                    assert(before[j] == x);
                }
            }
            assert forall|x: u128| before.to_set().insert(room_id).contains(x) implies self.windows@.to_set().contains(x) by {
                if x == room_id {
                    assert(self.windows@[before.len() as int] == x);
                } else {
                    let j = choose|j: int| 0 <= j < before.len() && before[j] == x;
                    assert(self.windows@[j] == x);
                }
            }
        }
        assert(self.windows@.no_duplicates()) by {
            assert forall|a: int, b: int| 0 <= a < b < self.windows@.len() implies self.windows@[a] != self.windows@[b] by {
                if b == before.len() {
                    assert(before.to_set().contains(before[a]));
                }
            }
        }
    }

    /// The rooms with an open window, for recomputing every badge.
    pub fn window_rooms(&self) -> (r: Vec<u128>)
        ensures
            r@.to_set() == self@.windows,
            self.wf() ==> r@.no_duplicates(),
    {
        self.windows.clone()
    }

    /// A room left the rooms query: close its window and drop its badge.
    /// Returns whether the badge map changed.
    pub fn remove_room(&mut self, room_id: u128) -> (changed: bool)
        requires
            old(self).wf(),
        ensures
            final(self).wf(),
            final(self)@ == (CursorState {
                windows: old(self)@.windows.remove(room_id),
                unread: old(self)@.unread.remove(room_id),
                ..old(self)@
            }),
            changed == old(self)@.unread.contains_key(room_id),
    {
        let ghost before = self.windows@;
        proof {
            assert(before.no_duplicates());
        }
        let mut k: usize = 0;
        let mut found = false;
        while k < self.windows.len() && !found
            invariant
                self.windows@ == before,
                k <= before.len(),
                found ==> k < before.len() && before[k as int] == room_id,
                !found ==> forall|j: int| 0 <= j < k ==> before[j] != room_id,
            decreases self.windows.len() - k, (if found { 0int } else { 1int }),
        {
            if self.windows[k] == room_id {
                found = true;
            } else {
                k += 1;
            }
        }
        if found {
            self.windows.remove(k);
            proof {
                assert(self.windows@ =~= before.remove(k as int));
                assert(self.windows@.to_set() =~= before.to_set().remove(room_id)) by {
                    assert forall|x: u128| self.windows@.to_set().contains(x) implies before.to_set().remove(room_id).contains(x) by {
                        let j = choose|j: int| 0 <= j < self.windows@.len() && self.windows@[j] == x;
                        if j < k {
                            assert(before[j] == x);
                            assert(j != k);
                        } else {
                            assert(before[j + 1] == x);
                            assert(j + 1 != k);
                        }
                    }
                    assert forall|x: u128| before.to_set().remove(room_id).contains(x) implies self.windows@.to_set().contains(x) by {
                        let j = choose|j: int| 0 <= j < before.len() && before[j] == x;
                        if j < k {
                            assert(self.windows@[j] == x);
                        } else {
                            assert(j != k);
                            assert(self.windows@[j - 1] == x);
                        }
                    }
                }
                assert(self.windows@.no_duplicates()) by {
                    assert forall|a: int, b: int| 0 <= a < b < self.windows@.len() implies self.windows@[a] != self.windows@[b] by {
                        let a2 = if a < k { a } else { a + 1 };
                        let b2 = if b < k { b } else { b + 1 };
                        assert(self.windows@[a] == before[a2]);
                        assert(self.windows@[b] == before[b2]);
                    }
                }
            }
        } else {
            assert(before.to_set().remove(room_id) =~= before.to_set());
        }
        let removed = self.unread.remove(&room_id);
        proof {
            if removed is None {
                assert(self@.unread =~= old(self)@.unread.remove(room_id));
            }
        }
        removed.is_some()
    }

    /// Re-derive one room's badge from its window's messages. A room with no
    /// open window keeps what it has. Returns whether the badge map changed.
    pub fn recompute_room(&mut self, room_id: u128, items: &[WindowMessage]) -> (changed: bool)
        requires
            old(self).wf(),
        ensures
            final(self).wf(),
            (final(self)@, changed) == old(self)@.recompute_spec(room_id, items@),
    {
        if !self.has_window(room_id) {
            return false;
        }
        let cursor = get_or_zero(&self.last_read, room_id);
        let mut count: usize = 0;
        let mut i: usize = 0;
        while i < items.len()
            invariant
                i <= items@.len(),
                count == unread_in(items@.take(i as int), cursor, self.user),
                count <= i,
            decreases items.len() - i,
        {
            let m = items[i];
            proof {
                assert(items@.take(i + 1).drop_last() =~= items@.take(i as int));
                assert(items@.take(i + 1).last() == m);
            }
            let unread = match m.timestamp {
                Some(ts) => ts > cursor && m.author != Some(self.user),
                None => false,
            };
            if unread {
                count += 1;
            }
            i += 1;
        }
        assert(items@.take(items@.len() as int) =~= items@);
        let current = match self.unread.get(&room_id) {
            Some(n) => *n,
            None => 0,
        };
        if current == count {
            return false;
        }
        if count == 0 {
            self.unread.remove(&room_id);
            proof {
                assert(self@.unread =~= old(self)@.unread.remove(room_id));
            }
        } else {
            self.unread.insert(room_id, count);
        }
        true
    }

    /// The next pass of `room_id`'s flush loop.
    pub fn flush_step(&self, room_id: u128) -> (r: FlushStep)
        ensures
            r == self@.flush_step_spec(room_id),
    {
        if self.disposed {
            return FlushStep::Stop;
        }
        let desired = get_or_zero(&self.last_read, room_id);
        let watermark = get_or_zero(&self.flushed, room_id);
        if desired <= watermark {
            FlushStep::Stop
        } else {
            FlushStep::Upsert(desired)
        }
    }

    /// An upsert of `written` committed: raise the watermark to it.
    pub fn flush_succeeded(&mut self, room_id: u128, written: i64)
        requires
            old(self).wf(),
        ensures
            final(self).wf(),
            final(self)@ == old(self)@.flush_succeeded_spec(room_id, written),
    {
        let wm = get_or_zero(&self.flushed, room_id);
        self.flushed.insert(room_id, if wm >= written { wm } else { written });
    }

    /// The room's flush loop has ended (caught up, disposed, or failed).
    pub fn flush_finished(&mut self, room_id: u128)
        requires
            old(self).wf(),
        ensures
            final(self).wf(),
            final(self)@ == old(self)@.flush_finished_spec(room_id),
    {
        self.in_flight.remove(&room_id);
    }

    /// Which row an upsert for `room_id` writes: one of the reader's rows for
    /// that room as delivered (the first in `rows`), else the row this client
    /// created for it earlier, else a new one.
    pub fn upsert_target(&self, room_id: u128, rows: &[ReadStateRow]) -> (r: UpsertTarget)
        ensures
            r matches UpsertTarget::Edit(id) ==> exists|i: int|
                0 <= i < rows@.len() && rows@[i].room == Some(room_id) && rows@[i].id == id && forall|j: int|
                    0 <= j < i ==> rows@[j].room != Some(room_id),
            r matches UpsertTarget::Fetch(id) ==> (forall|i: int|
                0 <= i < rows@.len() ==> rows@[i].room != Some(room_id)) && self@.row_ids.contains_key(room_id)
                && self@.row_ids[room_id] == id,
            r is Create ==> (forall|i: int| 0 <= i < rows@.len() ==> rows@[i].room != Some(room_id))
                && !self@.row_ids.contains_key(room_id),
    {
        let mut i: usize = 0;
        while i < rows.len()
            invariant
                i <= rows@.len(),
                forall|j: int| 0 <= j < i ==> rows@[j].room != Some(room_id),
            decreases rows.len() - i,
        {
            if rows[i].room == Some(room_id) {
                return UpsertTarget::Edit(rows[i].id);
            }
            i += 1;
        }
        match self.row_ids.get(&room_id) {
            Some(id) => UpsertTarget::Fetch(*id),
            None => UpsertTarget::Create,
        }
    }

    /// This client created the row `row_id` for `room_id`.
    pub fn record_created(&mut self, room_id: u128, row_id: u128)
        requires
            old(self).wf(),
        ensures
            final(self).wf(),
            final(self)@ == (CursorState { row_ids: old(self)@.row_ids.insert(room_id, row_id), ..old(self)@ }),
    {
        self.row_ids.insert(room_id, row_id);
    }

    /// Whether an upsert about to commit may: not once the manager is
    /// disposed.
    pub fn should_commit(&self) -> (r: bool)
        ensures
            r == !self@.disposed,
    {
        !self.disposed
    }
}

/// The AnkQL source of a badge window: a room's (or, with `dm`, a
/// conversation row's) ten newest live messages. A badge never counts more
/// than its window holds (`law_unread_within_window`), so it never reads
/// above ten.
pub fn window_source(dm: bool) -> (r: &'static str)
    ensures
        dm ==> r@ == "thread = ? AND deleted = false ORDER BY timestamp DESC LIMIT 10"@,
        !dm ==> r@ == "room = ? AND deleted = false ORDER BY timestamp DESC LIMIT 10"@,
{
    if dm {
        "thread = ? AND deleted = false ORDER BY timestamp DESC LIMIT 10"
    } else {
        "room = ? AND deleted = false ORDER BY timestamp DESC LIMIT 10"
    }
}

// ---- laws ----

/// A cursor never moves backwards: not by a mark, and not by the reader's
/// rows arriving.
pub proof fn law_cursor_monotone(
    s: CursorState,
    room: u128,
    ts: i64,
    items: Seq<WindowMessage>,
    rows: Seq<ReadStateRow>,
    other: u128,
)
    ensures
        s.mark_read_spec(room, ts, items).0.cursor(other) >= s.cursor(other),
        get0(absorb_rows(s.last_read, rows), other) >= s.cursor(other),
        get0(absorb_rows(s.flushed, rows), other) >= s.watermark(other),
{
    lemma_absorb_monotone(s.last_read, rows, other);
    lemma_absorb_monotone(s.flushed, rows, other);
}

/// A mark is a no-op unless it advances the cursor, and then the cursor is
/// exactly the mark, no other room's cursor moves, and the room's badge is
/// already the recount of its window against the new cursor.
pub proof fn law_mark_read_advances(s: CursorState, room: u128, ts: i64, items: Seq<WindowMessage>, other: u128)
    requires
        items.len() <= usize::MAX,
    ensures
        (s.disposed || ts <= s.cursor(room)) ==> s.mark_read_spec(room, ts, items) == (s, MarkRead::Ignored),
        (!s.disposed && ts > s.cursor(room)) ==> s.mark_read_spec(room, ts, items).0.cursor(room) == ts,
        (!s.disposed && ts > s.cursor(room) && other != room) ==> s.mark_read_spec(room, ts, items).0.cursor(
            other,
        ) == s.cursor(other),
        (!s.disposed && ts > s.cursor(room)) ==> s.mark_read_spec(room, ts, items).0.in_flight.contains(room),
        (!s.disposed && ts > s.cursor(room) && s.windows.contains(room) && s.ready) ==> s.mark_read_spec(
            room,
            ts,
            items,
        ).0.unread_count_spec(room) == unread_in(items, ts, s.user),
{
    law_unread_within_window(items, ts, s.user);
}

/// A burst of marks starts one flush loop: once a room's loop has started,
/// later marks for it start none until that loop finishes.
pub proof fn law_marks_coalesce(
    s: CursorState,
    room: u128,
    ts1: i64,
    ts2: i64,
    items1: Seq<WindowMessage>,
    items2: Seq<WindowMessage>,
)
    requires
        s.mark_read_spec(room, ts1, items1).1 matches MarkRead::Advanced { start_flush: true, .. },
    ensures
        !(s.mark_read_spec(room, ts1, items1).0.mark_read_spec(room, ts2, items2).1 matches MarkRead::Advanced {
            start_flush: true,
            ..
        }),
        s.mark_read_spec(room, ts1, items1).0.flush_finished_spec(room).mark_read_spec(room, ts2, items2).1 is Ignored
            || s.mark_read_spec(room, ts1, items1).0.flush_finished_spec(room).mark_read_spec(
            room,
            ts2,
            items2,
        ).1 matches MarkRead::Advanced { start_flush: true, .. },
{
}

/// A flush loop makes progress and ends: a pass upserts only a value above
/// the watermark, and once that value is written the next pass stops unless
/// the cursor has advanced meanwhile.
pub proof fn law_flush_terminates(s: CursorState, room: u128)
    ensures
        s.flush_step_spec(room) matches FlushStep::Upsert(d) ==> d > s.watermark(room) && d == s.cursor(room)
            && s.flush_succeeded_spec(room, d).flush_step_spec(room) == FlushStep::Stop,
{
}

/// A disposed manager is inert: marks are ignored and change nothing, and a
/// flush loop stops at its next pass.
pub proof fn law_disposed_is_inert(s: CursorState, room: u128, ts: i64, items: Seq<WindowMessage>)
    requires
        s.disposed,
    ensures
        s.mark_read_spec(room, ts, items) == (s, MarkRead::Ignored),
        s.flush_step_spec(room) == FlushStep::Stop,
{
}

/// A badge counts only other people's messages newer than the cursor, never
/// more than the window holds, and reads zero until the reader's rows have
/// loaded.
pub proof fn law_badge(s: CursorState, room: u128, items: Seq<WindowMessage>)
    requires
        items.len() <= usize::MAX,
    ensures
        unread_in(items, s.cursor(room), s.user) <= items.len(),
        !s.ready ==> s.unread_count_spec(room) == 0,
        s.windows.contains(room) && s.ready ==> s.recompute_spec(room, items).0.unread_count_spec(room)
            == unread_in(items, s.cursor(room), s.user),
{
    law_unread_within_window(items, s.cursor(room), s.user);
}

} // verus!

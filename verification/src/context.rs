//! The handshake between a host application and the chat surfaces: the
//! session-scoped cache every surface shares, and the rules that keep it from
//! ever serving one session's queries to another.
//!
//! The host owns a session signal — a context and the reader acting through
//! it — and a VERSION of that signal numbers the sessions. Everything built for
//! a session (the members, reactions, rooms and DM-thread queries, and the two
//! read-cursor managers) is cached against the number it was built for, and
//! every accessor compares before it serves:
//!
//! 1. PUBLISH BEFORE NOTIFY: a built query goes into the cache before anyone
//!    is told about it, so a re-entrant accessor finds it instead of building
//!    again; its registration is attached afterwards.
//! 2. NOTHING ENDS UNDER THE BORROW: whatever a step displaces is handed back
//!    to the caller to end once the step has returned.
//! 3. NEVER CACHE ACROSS A GENERATION: a step for a generation the cache is not
//!    on changes nothing.
//! 4. THE LOOP CANNOT SPIN: a retry happens only for a generation different
//!    from the one just tried.
//! 5. ENDED IS FINAL: teardown raises a terminal flag before it empties the
//!    cache, and from then on every step refuses.
//!
//! The cached values themselves are the caller's: a query handle `H`, its
//! registration `R`, and a cursor manager `C`.
use vstd::prelude::*;

use crate::text::{trim, trimmed, str_eq};

verus! {

/// Which shared query.
#[derive(Clone, Copy, PartialEq, Eq, Debug)]
pub enum QueryKind {
    /// Every member, live.
    Members,
    /// Every active reaction, live.
    Reactions,
    /// The rooms the deployment offers, live.
    Rooms,
    /// The reader's own conversations, live.
    DmThreads,
}

/// Which read-cursor manager.
#[derive(Clone, Copy, PartialEq, Eq, Debug)]
pub enum CursorKind {
    Rooms,
    Dms,
}

/// A cached query, and its registration once it has one.
pub struct QuerySlot<H, R> {
    pub query: H,
    pub registration: Option<R>,
}

/// One session's worth of shared handles, and the generation they were built
/// for.
pub struct SessionCache<H, R, C> {
    pub built_for: u64,
    pub members: Option<QuerySlot<H, R>>,
    pub reactions: Option<QuerySlot<H, R>>,
    pub rooms: Option<QuerySlot<H, R>>,
    pub dm_threads: Option<QuerySlot<H, R>>,
    pub room_cursors: Option<C>,
    pub dm_cursors: Option<C>,
}

impl<H, R, C> SessionCache<H, R, C> {
    pub open spec fn empty_for(generation: u64) -> Self {
        SessionCache {
            built_for: generation,
            members: None,
            reactions: None,
            rooms: None,
            dm_threads: None,
            room_cursors: None,
            dm_cursors: None,
        }
    }

    /// An empty cache on `generation`.
    pub fn new(generation: u64) -> (r: Self)
        ensures
            r == Self::empty_for(generation),
    {
        SessionCache {
            built_for: generation,
            members: None,
            reactions: None,
            rooms: None,
            dm_threads: None,
            room_cursors: None,
            dm_cursors: None,
        }
    }

    pub open spec fn slot(self, kind: QueryKind) -> Option<QuerySlot<H, R>> {
        match kind {
            QueryKind::Members => self.members,
            QueryKind::Reactions => self.reactions,
            QueryKind::Rooms => self.rooms,
            QueryKind::DmThreads => self.dm_threads,
        }
    }

    pub open spec fn with_slot(self, kind: QueryKind, v: Option<QuerySlot<H, R>>) -> Self {
        match kind {
            QueryKind::Members => SessionCache { members: v, ..self },
            QueryKind::Reactions => SessionCache { reactions: v, ..self },
            QueryKind::Rooms => SessionCache { rooms: v, ..self },
            QueryKind::DmThreads => SessionCache { dm_threads: v, ..self },
        }
    }

    pub open spec fn cursors(self, kind: CursorKind) -> Option<C> {
        match kind {
            CursorKind::Rooms => self.room_cursors,
            CursorKind::Dms => self.dm_cursors,
        }
    }

    pub open spec fn with_cursors(self, kind: CursorKind, v: Option<C>) -> Self {
        match kind {
            CursorKind::Rooms => SessionCache { room_cursors: v, ..self },
            CursorKind::Dms => SessionCache { dm_cursors: v, ..self },
        }
    }

    /// Nothing is cached.
    pub open spec fn is_empty(self) -> bool {
        &&& self.members is None
        &&& self.reactions is None
        &&& self.rooms is None
        &&& self.dm_threads is None
        &&& self.room_cursors is None
        &&& self.dm_cursors is None
    }

    fn slot_mut(&mut self, kind: QueryKind) -> (r: &mut Option<QuerySlot<H, R>>)
        ensures
            *r == old(self).slot(kind),
            *final(self) == old(self).with_slot(kind, *final(r)),
    {
        match kind {
            QueryKind::Members => &mut self.members,
            QueryKind::Reactions => &mut self.reactions,
            QueryKind::Rooms => &mut self.rooms,
            QueryKind::DmThreads => &mut self.dm_threads,
        }
    }

    fn cursors_mut(&mut self, kind: CursorKind) -> (r: &mut Option<C>)
        ensures
            *r == old(self).cursors(kind),
            *final(self) == old(self).with_cursors(kind, *final(r)),
    {
        match kind {
            CursorKind::Rooms => &mut self.room_cursors,
            CursorKind::Dms => &mut self.dm_cursors,
        }
    }
}

/// What became of a value offered to the cache.
pub enum Publish<T> {
    /// The cache took it; the caller announces it now.
    Won,
    /// Something was already cached there for this generation: the caller
    /// ends its own build (after the step has returned) and uses the cached
    /// one.
    Lost(T),
    /// The handshake has ended, or the cache is on another generation:
    /// nothing was cached, and the caller ends its build.
    Refused(T),
}

/// What became of a registration offered to a published query.
pub enum Attach<R> {
    /// Attached. Carries whatever registration it displaced, for the caller
    /// to end after the step.
    Attached(Option<R>),
    /// The query is no longer cached for this generation (or the handshake
    /// ended): the registration is an orphan, for the caller to end.
    Orphaned(R),
}

/// Whether a write may proceed, and as whom.
#[derive(Clone, Copy, PartialEq, Eq, Debug)]
pub enum WriteSession {
    /// Write, authored by this reader.
    Write(u128),
    /// Nobody is signed in: the caller raises the host's auth demand and
    /// stops.
    DemandAuth,
    /// The handshake has ended: refuse without demanding.
    Refuse,
}

/// What an accessor does next, as its step decides.
#[derive(Clone, Copy, PartialEq, Eq, Debug)]
pub enum Access {
    /// Hand out what the cache holds for the generation held: it is on the
    /// current session and is the one every other accessor is served.
    Serve,
    /// Fetch what a cursor manager is built from (its query, the reader),
    /// then report `Gathered`.
    Gather,
    /// Build one for the generation held and report it as `Built`.
    Build,
    /// The build was cached: give it its registration, then report
    /// `Registered`.
    Register,
    /// The session moved on: begin again for this generation.
    Retry(u64),
    /// The handshake has ended: answer `None`.
    Stop,
}

/// What an accessor of a shared query reports to its step.
pub enum QueryEvent<H, R> {
    /// Beginning (or beginning again) for the generation held.
    Start,
    /// A query built through the session the generation held stands for.
    Built(H),
    /// The registration of the query that was cached.
    Registered(R),
    /// Building the query failed.
    Failed,
}

/// What an accessor of a cursor manager reports to its step.
pub enum CursorEvent<C> {
    /// Beginning (or beginning again) for the generation held.
    Start,
    /// What the manager is built from was asked for: whether its query was
    /// there, and the session's reader (`None` for an anonymous one).
    Gathered { query_ready: bool, viewer: Option<u128> },
    /// A manager built through the session the generation held stands for.
    Built(C),
    /// Building the manager failed.
    Failed,
}

/// What a step hands back for the caller to end once the step has returned:
/// a displaced cache (its cursor managers disposed), a query that was not
/// cached, a registration that was displaced or orphaned, and a cursor
/// manager that was not cached (disposed, not merely dropped).
pub struct Leftovers<H, R, C> {
    pub stale: Option<SessionCache<H, R, C>>,
    pub query: Option<H>,
    pub registration: Option<R>,
    pub cursors: Option<C>,
}

/// Nothing to end.
pub open spec fn no_leftovers<H, R, C>() -> Leftovers<H, R, C> {
    Leftovers { stale: None, query: None, registration: None, cursors: None }
}

impl<H, R, C> Leftovers<H, R, C> {
    /// Nothing to end.
    pub fn none() -> (r: Self)
        ensures
            r == no_leftovers::<H, R, C>(),
    {
        Leftovers { stale: None, query: None, registration: None, cursors: None }
    }
}

/// Whether the transport is up: the host's reading, or up when the host
/// gave no reading.
pub open spec fn online_spec(host: Option<bool>) -> bool {
    match host {
        Some(b) => b,
        None => true,
    }
}

/// Whether the reader may act on other members' messages: the host's
/// reading, or no when the host gave none.
pub open spec fn can_moderate_spec(host: Option<bool>) -> bool {
    match host {
        Some(b) => b,
        None => false,
    }
}

/// The version of the host's session signal after one more change: the first
/// session is version 0, and each change moves it by one, so no two sessions
/// share a number.
pub open spec fn version_after(prev: Option<u64>) -> int {
    match prev {
        Some(p) => p + 1,
        None => 0,
    }
}

/// The next version of the host's session signal.
pub fn next_version(prev: Option<u64>) -> (r: u64)
    requires
        prev matches Some(p) ==> p < u64::MAX,
    ensures
        r == version_after(prev),
{
    match prev {
        Some(p) => p + 1,
        None => 0,
    }
}

/// The host handshake's own state: whether it has ended, the generation it
/// froze at, the room predicate the host declared, whether the host can
/// raise a sign-in ceremony, and the session cache.
pub struct ChatContext<H, R, C> {
    ended: bool,
    final_generation: u64,
    rooms_where: String,
    demand_installed: bool,
    shared: SessionCache<H, R, C>,
}

impl<H, R, C> ChatContext<H, R, C> {
    pub closed spec fn is_ended(self) -> bool {
        self.ended
    }

    pub closed spec fn frozen_generation(self) -> u64 {
        self.final_generation
    }

    pub closed spec fn rooms_predicate_view(self) -> Seq<char> {
        self.rooms_where@
    }

    pub closed spec fn has_demand(self) -> bool {
        self.demand_installed
    }

    pub closed spec fn cache(self) -> SessionCache<H, R, C> {
        self.shared
    }

    /// A live handshake with an empty cache. `rooms_where` is the AnkQL
    /// predicate over `Room` the host declared (`"true"` for every room);
    /// `demand_installed` is whether the host gave an auth-demand callback.
    pub fn new(rooms_where: String, demand_installed: bool) -> (r: Self)
        ensures
            !r.is_ended(),
            r.frozen_generation() == 0,
            r.rooms_predicate_view() == rooms_where@,
            r.has_demand() == demand_installed,
            r.cache() == SessionCache::<H, R, C>::empty_for(0),
    {
        ChatContext {
            ended: false,
            final_generation: 0,
            rooms_where,
            demand_installed,
            shared: SessionCache::new(0),
        }
    }

    // ---- the transitions, stated ----

    pub open spec fn discard_stale_spec(self, generation: u64) -> (Self, Option<SessionCache<H, R, C>>) {
        if self.is_ended() || self.cache().built_for == generation {
            (self, None)
        } else {
            (self.with_cache(SessionCache::empty_for(generation)), Some(self.cache()))
        }
    }

    pub closed spec fn with_cache(self, c: SessionCache<H, R, C>) -> Self {
        ChatContext { shared: c, ..self }
    }

    pub closed spec fn ended_at(self, generation: u64) -> Self {
        ChatContext {
            ended: true,
            final_generation: generation,
            shared: SessionCache::empty_for(self.shared.built_for),
            ..self
        }
    }

    pub open spec fn publish_query_spec(self, generation: u64, kind: QueryKind, query: H) -> (Self, Publish<H>) {
        if self.is_ended() || self.cache().built_for != generation {
            (self, Publish::Refused(query))
        } else if self.cache().slot(kind) is Some {
            (self, Publish::Lost(query))
        } else {
            (
                self.with_cache(
                    self.cache().with_slot(kind, Some(QuerySlot { query, registration: None })),
                ),
                Publish::Won,
            )
        }
    }

    pub open spec fn attach_spec(self, generation: u64, kind: QueryKind, registration: R) -> (Self, Attach<R>) {
        if self.is_ended() || self.cache().built_for != generation || self.cache().slot(kind) is None {
            (self, Attach::Orphaned(registration))
        } else {
            let held = self.cache().slot(kind)->0;
            (
                self.with_cache(
                    self.cache().with_slot(
                        kind,
                        Some(QuerySlot { query: held.query, registration: Some(registration) }),
                    ),
                ),
                Attach::Attached(held.registration),
            )
        }
    }

    pub open spec fn publish_cursors_spec(self, generation: u64, kind: CursorKind, value: C) -> (Self, Publish<C>) {
        if self.is_ended() || self.cache().built_for != generation {
            (self, Publish::Refused(value))
        } else if self.cache().cursors(kind) is Some {
            (self, Publish::Lost(value))
        } else {
            (self.with_cache(self.cache().with_cursors(kind, Some(value))), Publish::Won)
        }
    }

    pub open spec fn peek_query_spec(self, generation: u64, kind: QueryKind) -> Option<H> {
        if self.is_ended() || self.cache().built_for != generation {
            None
        } else {
            match self.cache().slot(kind) {
                Some(slot) => Some(slot.query),
                None => None,
            }
        }
    }

    pub open spec fn peek_cursors_spec(self, generation: u64, kind: CursorKind) -> Option<C> {
        if self.is_ended() || self.cache().built_for != generation {
            None
        } else {
            self.cache().cursors(kind)
        }
    }

    pub open spec fn generation_spec(self, live: u64) -> u64 {
        if self.is_ended() {
            self.frozen_generation()
        } else {
            live
        }
    }

    pub open spec fn crossed_spec(self, generation: u64, now: u64) -> Option<u64> {
        if self.is_ended() || now == generation {
            None
        } else {
            Some(now)
        }
    }

    pub open spec fn write_session_spec(self, viewer: Option<u128>) -> WriteSession {
        if self.is_ended() {
            WriteSession::Refuse
        } else {
            match viewer {
                Some(v) => WriteSession::Write(v),
                None => WriteSession::DemandAuth,
            }
        }
    }

    // ---- the transitions ----

    /// Which session this is. `live` is the current version of the host's
    /// signal; after teardown the version as of teardown answers instead,
    /// frozen.
    pub fn generation(&self, live: u64) -> (r: u64)
        ensures
            r == self.generation_spec(live),
    {
        if self.ended {
            self.final_generation
        } else {
            live
        }
    }

    /// Whether the handshake has ended.
    pub fn ended(&self) -> (r: bool)
        ensures
            r == self.is_ended(),
    {
        self.ended
    }

    /// The current generation if it has moved past `generation`, else `None`;
    /// `None` under ended, where there is no session to cross into.
    pub fn crossed(&self, generation: u64, now: u64) -> (r: Option<u64>)
        ensures
            r == self.crossed_spec(generation, now),
    {
        if self.ended {
            return None;
        }
        if now != generation {
            Some(now)
        } else {
            None
        }
    }

    /// Take anything built for a session other than `generation` out of the
    /// cache, for the caller to end (cursor managers disposed, queries and
    /// registrations dropped) once this has returned, and leave an empty cache
    /// on `generation`. Idempotent; does nothing after teardown.
    pub fn discard_stale(&mut self, generation: u64) -> (stale: Option<SessionCache<H, R, C>>)
        ensures
            (*final(self), stale) == old(self).discard_stale_spec(generation),
    {
        if self.ended || self.shared.built_for == generation {
            return None;
        }
        let mut taken = SessionCache::new(generation);
        std::mem::swap(&mut self.shared, &mut taken);
        Some(taken)
    }

    /// Teardown. Freezes the public generation at `live`, raises the
    /// terminal flag, and hands back everything the cache held (whatever
    /// session it was built for) for the caller to end once this returns.
    pub fn discard_all(&mut self, live: u64) -> (held: SessionCache<H, R, C>)
        ensures
            *final(self) == old(self).ended_at(live),
            held == old(self).cache(),
            final(self).is_ended(),
            final(self).frozen_generation() == live,
            final(self).cache().is_empty(),
    {
        self.final_generation = live;
        self.ended = true;
        let built_for = self.shared.built_for;
        let mut taken = SessionCache::new(built_for);
        std::mem::swap(&mut self.shared, &mut taken);
        taken
    }

    /// The cached query of `kind`, if the cache is on `generation`.
    pub fn peek_query(&self, generation: u64, kind: QueryKind) -> (r: Option<&H>)
        ensures
            r matches Some(q) ==> self.peek_query_spec(generation, kind) == Some(*q),
            r is None ==> self.peek_query_spec(generation, kind) is None,
    {
        if self.ended || self.shared.built_for != generation {
            return None;
        }
        let slot = match kind {
            QueryKind::Members => &self.shared.members,
            QueryKind::Reactions => &self.shared.reactions,
            QueryKind::Rooms => &self.shared.rooms,
            QueryKind::DmThreads => &self.shared.dm_threads,
        };
        match slot {
            Some(s) => Some(&s.query),
            None => None,
        }
    }

    /// The cached cursor manager of `kind`, if the cache is on `generation`.
    pub fn peek_cursors(&self, generation: u64, kind: CursorKind) -> (r: Option<&C>)
        ensures
            r matches Some(c) ==> self.peek_cursors_spec(generation, kind) == Some(*c),
            r is None ==> self.peek_cursors_spec(generation, kind) is None,
    {
        if self.ended || self.shared.built_for != generation {
            return None;
        }
        let slot = match kind {
            CursorKind::Rooms => &self.shared.room_cursors,
            CursorKind::Dms => &self.shared.dm_cursors,
        };
        match slot {
            Some(c) => Some(c),
            None => None,
        }
    }

    /// Offer a freshly built query to the cache for `generation`. It is cached
    /// only if the handshake is live, the cache is on that generation, and
    /// nothing is cached there yet; it is cached without a registration.
    pub fn publish_query(&mut self, generation: u64, kind: QueryKind, query: H) -> (r: Publish<H>)
        ensures
            (*final(self), r) == old(self).publish_query_spec(generation, kind, query),
    {
        if self.ended || self.shared.built_for != generation {
            return Publish::Refused(query);
        }
        let slot = self.shared.slot_mut(kind);
        if slot.is_some() {
            return Publish::Lost(query);
        }
        *slot = Some(QuerySlot { query, registration: None });
        Publish::Won
    }

    /// Give a published query its registration, if it is still the cached one
    /// for `generation`.
    pub fn attach_registration(&mut self, generation: u64, kind: QueryKind, registration: R) -> (r: Attach<R>)
        ensures
            (*final(self), r) == old(self).attach_spec(generation, kind, registration),
    {
        if self.ended || self.shared.built_for != generation {
            return Attach::Orphaned(registration);
        }
        let slot = self.shared.slot_mut(kind);
        match slot.take() {
            Some(held) => {
                let displaced = held.registration;
                *slot = Some(QuerySlot { query: held.query, registration: Some(registration) });
                Attach::Attached(displaced)
            },
            None => Attach::Orphaned(registration),
        }
    }

    /// Offer a freshly built cursor manager to the cache for `generation`. A
    /// manager that is not cached was nevertheless built, so the caller
    /// disposes it (not merely drops it) once this returns.
    pub fn publish_cursors(&mut self, generation: u64, kind: CursorKind, value: C) -> (r: Publish<C>)
        ensures
            (*final(self), r) == old(self).publish_cursors_spec(generation, kind, value),
    {
        if self.ended || self.shared.built_for != generation {
            return Publish::Refused(value);
        }
        let slot = self.shared.cursors_mut(kind);
        if slot.is_some() {
            return Publish::Lost(value);
        }
        *slot = Some(value);
        Publish::Won
    }

    /// Whether someone is signed in: false after teardown, like every other
    /// question the handshake answers.
    pub fn is_authenticated(&self, viewer: Option<u128>) -> (r: bool)
        ensures
            r == (!self.is_ended() && viewer is Some),
    {
        !self.ended && viewer.is_some()
    }

    /// Whether this handshake would actually raise a sign-in ceremony if
    /// asked.
    pub fn can_demand_auth(&self) -> (r: bool)
        ensures
            r == (!self.is_ended() && self.has_demand()),
    {
        !self.ended && self.demand_installed
    }

    /// Take the author a deferred write needs, given the session's reader as
    /// of now: write as that reader, raise the auth demand when there is
    /// none, and refuse outright once the handshake has ended.
    pub fn write_session(&self, viewer: Option<u128>) -> (r: WriteSession)
        ensures
            r == self.write_session_spec(viewer),
    {
        if self.ended {
            return WriteSession::Refuse;
        }
        match viewer {
            Some(v) => WriteSession::Write(v),
            None => WriteSession::DemandAuth,
        }
    }

    /// Whether the host narrowed the room set (its predicate, trimmed, is
    /// anything but `true`).
    pub fn rooms_narrowed(&self) -> (r: bool)
        ensures
            r == (trimmed(self.rooms_predicate_view()) != "true"@),
    {
        let t = trim(self.rooms_where.as_str());
        !str_eq(t.as_str(), "true")
    }

    /// The AnkQL source of a shared query.
    pub fn query_source(&self, kind: QueryKind) -> (r: String)
        ensures
            kind == QueryKind::Members ==> r@ == "true"@,
            kind == QueryKind::Reactions ==> r@ == "active = true"@,
            kind == QueryKind::DmThreads ==> r@ == "deleted = false"@,
            kind == QueryKind::Rooms ==> r@ == self.rooms_predicate_view() + " ORDER BY name ASC"@,
    {
        match kind {
            QueryKind::Members => String::from_str("true"),
            QueryKind::Reactions => String::from_str("active = true"),
            QueryKind::DmThreads => String::from_str("deleted = false"),
            QueryKind::Rooms => self.rooms_where.clone().concat(" ORDER BY name ASC"),
        }
    }
}

impl<H, R, C> ChatContext<H, R, C> {
    /// One step of a shared-query accessor holding generation `held`, with
    /// `now` the host signal's version read just before the step.
    pub open spec fn query_step_spec(self, held: u64, now: u64, kind: QueryKind, event: QueryEvent<H, R>) -> (
        Self,
        Access,
        Leftovers<H, R, C>,
    ) {
        match event {
            QueryEvent::Start => if self.is_ended() {
                (self, Access::Stop, no_leftovers())
            } else if now != held {
                (self, Access::Retry(now), no_leftovers())
            } else {
                let d = self.discard_stale_spec(held);
                (
                    d.0,
                    if d.0.peek_query_spec(held, kind) is Some {
                        Access::Serve
                    } else {
                        Access::Build
                    },
                    Leftovers { stale: d.1, query: None, registration: None, cursors: None },
                )
            },
            QueryEvent::Built(q) => if self.is_ended() {
                (self, Access::Stop, Leftovers { stale: None, query: Some(q), registration: None, cursors: None })
            } else if now != held {
                (
                    self,
                    Access::Retry(now),
                    Leftovers { stale: None, query: Some(q), registration: None, cursors: None },
                )
            } else {
                let d = self.discard_stale_spec(held);
                let p = d.0.publish_query_spec(held, kind, q);
                match p.1 {
                    Publish::Won => (
                        p.0,
                        Access::Register,
                        Leftovers { stale: d.1, query: None, registration: None, cursors: None },
                    ),
                    Publish::Lost(x) => (
                        p.0,
                        Access::Serve,
                        Leftovers { stale: d.1, query: Some(x), registration: None, cursors: None },
                    ),
                    Publish::Refused(x) => (
                        p.0,
                        Access::Stop,
                        Leftovers { stale: d.1, query: Some(x), registration: None, cursors: None },
                    ),
                }
            },
            QueryEvent::Registered(r) => {
                let a = self.attach_spec(held, kind, r);
                let displaced = match a.1 {
                    Attach::Attached(prev) => prev,
                    Attach::Orphaned(x) => Some(x),
                };
                if a.0.is_ended() {
                    (a.0, Access::Stop, Leftovers { stale: None, query: None, registration: displaced, cursors: None })
                } else if now != held {
                    (
                        a.0,
                        Access::Retry(now),
                        Leftovers { stale: None, query: None, registration: displaced, cursors: None },
                    )
                } else if a.0.peek_query_spec(held, kind) is Some {
                    (a.0, Access::Serve, Leftovers { stale: None, query: None, registration: displaced, cursors: None })
                } else {
                    let d = a.0.discard_stale_spec(held);
                    (d.0, Access::Build, Leftovers { stale: d.1, query: None, registration: displaced, cursors: None })
                }
            },
            QueryEvent::Failed => (self, Access::Stop, no_leftovers()),
        }
    }

    /// One step of a cursor-manager accessor holding generation `held`, with
    /// `now` the host signal's version read just before the step.
    pub open spec fn cursor_step_spec(self, held: u64, now: u64, kind: CursorKind, event: CursorEvent<C>) -> (
        Self,
        Access,
        Leftovers<H, R, C>,
    ) {
        match event {
            CursorEvent::Start => if self.is_ended() {
                (self, Access::Stop, no_leftovers())
            } else if now != held {
                (self, Access::Retry(now), no_leftovers())
            } else {
                let d = self.discard_stale_spec(held);
                (
                    d.0,
                    if d.0.peek_cursors_spec(held, kind) is Some {
                        Access::Serve
                    } else {
                        Access::Gather
                    },
                    Leftovers { stale: d.1, query: None, registration: None, cursors: None },
                )
            },
            CursorEvent::Gathered { query_ready, viewer } => if self.is_ended() || !query_ready || viewer is None {
                (self, Access::Stop, no_leftovers())
            } else if now != held {
                (self, Access::Retry(now), no_leftovers())
            } else {
                (self, Access::Build, no_leftovers())
            },
            CursorEvent::Built(c) => if self.is_ended() {
                (self, Access::Stop, Leftovers { stale: None, query: None, registration: None, cursors: Some(c) })
            } else if now != held {
                (
                    self,
                    Access::Retry(now),
                    Leftovers { stale: None, query: None, registration: None, cursors: Some(c) },
                )
            } else {
                let d = self.discard_stale_spec(held);
                let p = d.0.publish_cursors_spec(held, kind, c);
                match p.1 {
                    Publish::Won => (
                        p.0,
                        Access::Serve,
                        Leftovers { stale: d.1, query: None, registration: None, cursors: None },
                    ),
                    Publish::Lost(x) => (
                        p.0,
                        Access::Serve,
                        Leftovers { stale: d.1, query: None, registration: None, cursors: Some(x) },
                    ),
                    Publish::Refused(x) => (
                        p.0,
                        Access::Stop,
                        Leftovers { stale: d.1, query: None, registration: None, cursors: Some(x) },
                    ),
                }
            },
            CursorEvent::Failed => (self, Access::Stop, no_leftovers()),
        }
    }

    /// One step of a shared-query accessor. The accessor begins with `Start`
    /// for the generation it read, and then does what each answer says: on
    /// `Serve` it hands out `peek_query(held, kind)`; on `Build` it builds
    /// through the current session and reports `Built` (or `Failed`); on
    /// `Register` it
    /// registers the query it offered and reports `Registered`; on
    /// `Retry(next)` it begins again for `next`; on `Stop` it answers
    /// `None`. `now` is the signal's version read just before each step, and
    /// whatever the step hands back is ended once it has returned.
    pub fn query_step(&mut self, held: u64, now: u64, kind: QueryKind, event: QueryEvent<H, R>) -> (r: (
        Access,
        Leftovers<H, R, C>,
    ))
        ensures
            (*final(self), r.0, r.1) == old(self).query_step_spec(held, now, kind, event),
    {
        match event {
            QueryEvent::Start => {
                if self.ended {
                    return (Access::Stop, Leftovers::none());
                }
                if now != held {
                    return (Access::Retry(now), Leftovers::none());
                }
                let stale = self.discard_stale(held);
                let access = if self.peek_query(held, kind).is_some() {
                    Access::Serve
                } else {
                    Access::Build
                };
                (access, Leftovers { stale, query: None, registration: None, cursors: None })
            },
            QueryEvent::Built(q) => {
                if self.ended {
                    return (Access::Stop, Leftovers { stale: None, query: Some(q), registration: None, cursors: None });
                }
                if now != held {
                    return (
                        Access::Retry(now),
                        Leftovers { stale: None, query: Some(q), registration: None, cursors: None },
                    );
                }
                let stale = self.discard_stale(held);
                match self.publish_query(held, kind, q) {
                    Publish::Won => (Access::Register, Leftovers { stale, query: None, registration: None, cursors: None }),
                    Publish::Lost(x) => (Access::Serve, Leftovers { stale, query: Some(x), registration: None, cursors: None }),
                    Publish::Refused(x) => (Access::Stop, Leftovers { stale, query: Some(x), registration: None, cursors: None }),
                }
            },
            QueryEvent::Registered(r) => {
                let displaced = match self.attach_registration(held, kind, r) {
                    Attach::Attached(prev) => prev,
                    Attach::Orphaned(x) => Some(x),
                };
                if self.ended {
                    return (Access::Stop, Leftovers { stale: None, query: None, registration: displaced, cursors: None });
                }
                if now != held {
                    return (
                        Access::Retry(now),
                        Leftovers { stale: None, query: None, registration: displaced, cursors: None },
                    );
                }
                if self.peek_query(held, kind).is_some() {
                    return (Access::Serve, Leftovers { stale: None, query: None, registration: displaced, cursors: None });
                }
                let stale = self.discard_stale(held);
                (Access::Build, Leftovers { stale, query: None, registration: displaced, cursors: None })
            },
            QueryEvent::Failed => (Access::Stop, Leftovers::none()),
        }
    }

    /// One step of a cursor-manager accessor, run as `query_step` is: on
    /// `Serve` hand out `peek_cursors(held, kind)`; on `Gather` ask for the
    /// manager's query and the session's reader and report what came back as
    /// `Gathered` (the step stops for a missing query or an anonymous
    /// reader); on `Build` build the manager through the current session and
    /// report `Built`, or `Failed` if that failed.
    pub fn cursor_step(&mut self, held: u64, now: u64, kind: CursorKind, event: CursorEvent<C>) -> (r: (
        Access,
        Leftovers<H, R, C>,
    ))
        ensures
            (*final(self), r.0, r.1) == old(self).cursor_step_spec(held, now, kind, event),
    {
        match event {
            CursorEvent::Start => {
                if self.ended {
                    return (Access::Stop, Leftovers::none());
                }
                if now != held {
                    return (Access::Retry(now), Leftovers::none());
                }
                let stale = self.discard_stale(held);
                let access = if self.peek_cursors(held, kind).is_some() {
                    Access::Serve
                } else {
                    Access::Gather
                };
                (access, Leftovers { stale, query: None, registration: None, cursors: None })
            },
            CursorEvent::Gathered { query_ready, viewer } => {
                if self.ended || !query_ready || viewer.is_none() {
                    return (Access::Stop, Leftovers::none());
                }
                if now != held {
                    return (Access::Retry(now), Leftovers::none());
                }
                (Access::Build, Leftovers::none())
            },
            CursorEvent::Built(c) => {
                if self.ended {
                    return (Access::Stop, Leftovers { stale: None, query: None, registration: None, cursors: Some(c) });
                }
                if now != held {
                    return (
                        Access::Retry(now),
                        Leftovers { stale: None, query: None, registration: None, cursors: Some(c) },
                    );
                }
                let stale = self.discard_stale(held);
                match self.publish_cursors(held, kind, c) {
                    Publish::Won => (Access::Serve, Leftovers { stale, query: None, registration: None, cursors: None }),
                    Publish::Lost(x) => (Access::Serve, Leftovers { stale, query: None, registration: None, cursors: Some(x) }),
                    Publish::Refused(x) => (Access::Stop, Leftovers { stale, query: None, registration: None, cursors: Some(x) }),
                }
            },
            CursorEvent::Failed => (Access::Stop, Leftovers::none()),
        }
    }

    /// Whether the transport is up, given the host's reading (`None` when
    /// the host installed no reading).
    pub fn online(&self, host: Option<bool>) -> (r: bool)
        ensures
            r == online_spec(host),
    {
        match host {
            Some(b) => b,
            None => true,
        }
    }

    /// Whether this reader may act on other members' messages, given the
    /// host's reading (`None` when the host installed none).
    pub fn can_moderate(&self, host: Option<bool>) -> (r: bool)
        ensures
            r == can_moderate_spec(host),
    {
        match host {
            Some(b) => b,
            None => false,
        }
    }
}

/// The name a shared query is announced under.
pub fn query_label(kind: QueryKind) -> (r: &'static str)
    ensures
        kind == QueryKind::Members ==> r@ == "members"@,
        kind == QueryKind::Reactions ==> r@ == "reactions"@,
        kind == QueryKind::Rooms ==> r@ == "rooms"@,
        kind == QueryKind::DmThreads ==> r@ == "dm threads"@,
{
    match kind {
        QueryKind::Members => "members",
        QueryKind::Reactions => "reactions",
        QueryKind::Rooms => "rooms",
        QueryKind::DmThreads => "dm threads",
    }
}

// ---- laws ----

/// ENDED IS FINAL: once the handshake has ended, no step changes it, every
/// offer is refused, every lookup misses, the generation is frozen, and a
/// write is refused without a demand.
pub proof fn law_ended_is_final<H, R, C>(
    s: ChatContext<H, R, C>,
    generation: u64,
    live: u64,
    now: u64,
    qk: QueryKind,
    ck: CursorKind,
    q: H,
    r: R,
    c: C,
    viewer: Option<u128>,
)
    requires
        s.is_ended(),
    ensures
        s.discard_stale_spec(generation) == (s, None::<SessionCache<H, R, C>>),
        s.publish_query_spec(generation, qk, q) == (s, Publish::Refused(q)),
        s.attach_spec(generation, qk, r) == (s, Attach::Orphaned(r)),
        s.publish_cursors_spec(generation, ck, c) == (s, Publish::Refused(c)),
        s.peek_query_spec(generation, qk) is None,
        s.peek_cursors_spec(generation, ck) is None,
        s.crossed_spec(generation, now) is None,
        s.generation_spec(live) == s.frozen_generation(),
        s.write_session_spec(viewer) == WriteSession::Refuse,
{
}

/// Teardown ends the handshake, whatever state it was in: afterwards every
/// lookup misses and every offer is refused, and the public generation stays
/// at the number it froze at, however the host's signal moves.
pub proof fn law_teardown_is_terminal<H, R, C>(
    s: ChatContext<H, R, C>,
    at: u64,
    generation: u64,
    live: u64,
    qk: QueryKind,
    q: H,
    viewer: Option<u128>,
)
    ensures
        s.ended_at(at).is_ended(),
        s.ended_at(at).generation_spec(live) == at,
        s.ended_at(at).peek_query_spec(generation, qk) is None,
        s.ended_at(at).publish_query_spec(generation, qk, q).0 == s.ended_at(at),
        s.ended_at(at).write_session_spec(viewer) == WriteSession::Refuse,
        s.ended_at(at).cache().is_empty(),
{
}

/// PUBLISH BEFORE NOTIFY: a query that won its publication is what the cache
/// answers for that generation straight away, before any registration.
pub proof fn law_publish_then_peek<H, R, C>(s: ChatContext<H, R, C>, generation: u64, kind: QueryKind, q: H)
    requires
        s.publish_query_spec(generation, kind, q).1 is Won,
    ensures
        s.publish_query_spec(generation, kind, q).0.peek_query_spec(generation, kind) == Some(q),
        s.publish_query_spec(generation, kind, q).0.cache().slot(kind)->0.registration is None,
{
}

/// A registration attached to a published query leaves that query the one
/// the cache answers.
pub proof fn law_attach_keeps_query<H, R, C>(s: ChatContext<H, R, C>, generation: u64, kind: QueryKind, r: R)
    ensures
        s.attach_spec(generation, kind, r).0.peek_query_spec(generation, kind) == s.peek_query_spec(
            generation,
            kind,
        ),
{
}

/// NEVER CACHE ACROSS A GENERATION: an offer for a generation the cache is
/// not on changes nothing, and a lookup for it misses.
pub proof fn law_no_cross_generation<H, R, C>(
    s: ChatContext<H, R, C>,
    generation: u64,
    qk: QueryKind,
    ck: CursorKind,
    q: H,
    r: R,
    c: C,
)
    requires
        s.cache().built_for != generation,
    ensures
        s.publish_query_spec(generation, qk, q).0 == s,
        s.attach_spec(generation, qk, r).0 == s,
        s.publish_cursors_spec(generation, ck, c).0 == s,
        s.peek_query_spec(generation, qk) is None,
        s.peek_cursors_spec(generation, ck) is None,
{
}

/// On a live handshake an occupied slot is never overwritten: the second
/// build loses.
pub proof fn law_no_overwrite<H, R, C>(s: ChatContext<H, R, C>, generation: u64, qk: QueryKind, ck: CursorKind, q: H, c: C)
    requires
        !s.is_ended(),
        s.cache().built_for == generation,
    ensures
        s.cache().slot(qk) is Some ==> s.publish_query_spec(generation, qk, q) == (s, Publish::Lost(q)),
        s.cache().cursors(ck) is Some ==> s.publish_cursors_spec(generation, ck, c) == (s, Publish::Lost(c)),
{
}

/// Discarding is idempotent, and a live handshake is on the generation it
/// last discarded for, with nothing carried over from any other.
pub proof fn law_discard<H, R, C>(s: ChatContext<H, R, C>, generation: u64)
    ensures
        s.discard_stale_spec(generation).0.discard_stale_spec(generation) == (
            s.discard_stale_spec(generation).0,
            None::<SessionCache<H, R, C>>,
        ),
        !s.is_ended() ==> s.discard_stale_spec(generation).0.cache().built_for == generation,
        !s.is_ended() && s.cache().built_for != generation ==> s.discard_stale_spec(
            generation,
        ).0.cache().is_empty(),
        s.discard_stale_spec(generation).1 is Some ==> s.discard_stale_spec(generation).1->0 == s.cache(),
{
}

/// THE LOOP CANNOT SPIN: a crossing is reported only for a generation other
/// than the one the caller holds.
pub proof fn law_crossed_moves<H, R, C>(s: ChatContext<H, R, C>, generation: u64, now: u64)
    ensures
        s.crossed_spec(generation, now) matches Some(next) ==> next != generation && next == now,
        !s.is_ended() && now != generation ==> s.crossed_spec(generation, now) == Some(now),
{
}

/// A write goes ahead as exactly the session's reader, and only on a live
/// handshake; an anonymous reader on a live handshake is asked to sign in.
pub proof fn law_write_author<H, R, C>(s: ChatContext<H, R, C>, viewer: Option<u128>)
    ensures
        s.write_session_spec(viewer) matches WriteSession::Write(v) ==> viewer == Some(v)
            && !s.is_ended(),
        s.write_session_spec(viewer) is DemandAuth <==> (!s.is_ended() && viewer is None),
{
}

/// A cursor manager that won its publication is what the cache answers for
/// that generation straight away; nothing else the cache answers moves.
pub proof fn law_publish_cursors_then_peek<H, R, C>(
    s: ChatContext<H, R, C>,
    generation: u64,
    kind: CursorKind,
    c: C,
    other: CursorKind,
    qk: QueryKind,
    g: u64,
)
    requires
        s.publish_cursors_spec(generation, kind, c).1 is Won,
    ensures
        s.publish_cursors_spec(generation, kind, c).0.peek_cursors_spec(generation, kind) == Some(c),
        other != kind ==> s.publish_cursors_spec(generation, kind, c).0.peek_cursors_spec(g, other)
            == s.peek_cursors_spec(g, other),
        s.publish_cursors_spec(generation, kind, c).0.peek_query_spec(g, qk) == s.peek_query_spec(g, qk),
{
}

/// SERVE ONLY THE CURRENT SESSION: an accessor is told to serve only when the
/// generation it holds is the signal's version as of the step, on a live
/// handshake, and the cache then holds a value of that kind for exactly that
/// generation. A retry always moves to the version read, never to the one
/// held, and an ended handshake stops every accessor without changing.
pub proof fn law_serve_is_current<H, R, C>(
    s: ChatContext<H, R, C>,
    held: u64,
    now: u64,
    qk: QueryKind,
    ck: CursorKind,
    qe: QueryEvent<H, R>,
    ce: CursorEvent<C>,
)
    ensures
        s.query_step_spec(held, now, qk, qe).1 is Serve ==> now == held && !s.query_step_spec(
            held,
            now,
            qk,
            qe,
        ).0.is_ended() && s.query_step_spec(held, now, qk, qe).0.peek_query_spec(held, qk) is Some,
        s.cursor_step_spec(held, now, ck, ce).1 is Serve ==> now == held && !s.cursor_step_spec(
            held,
            now,
            ck,
            ce,
        ).0.is_ended() && s.cursor_step_spec(held, now, ck, ce).0.peek_cursors_spec(held, ck) is Some,
        s.query_step_spec(held, now, qk, qe).1 matches Access::Retry(next) ==> next == now && next != held,
        s.cursor_step_spec(held, now, ck, ce).1 matches Access::Retry(next) ==> next == now && next != held,
        s.is_ended() ==> s.query_step_spec(held, now, qk, qe).0 == s && s.query_step_spec(
            held,
            now,
            qk,
            qe,
        ).1 == Access::Stop,
        s.is_ended() ==> s.cursor_step_spec(held, now, ck, ce).0 == s && s.cursor_step_spec(
            held,
            now,
            ck,
            ce,
        ).1 == Access::Stop,
{
}

/// The transport and moderation readings are the host's own whenever it gave
/// one: up exactly when the host says up, moderator exactly when the host
/// says so; without a reading the transport counts as up and the reader as
/// no moderator.
pub proof fn law_host_readings(b: bool)
    ensures
        online_spec(Some(b)) == b,
        can_moderate_spec(Some(b)) == b,
        online_spec(None),
        !can_moderate_spec(None),
{
}

/// A cursor manager is never built for an anonymous reader or without its
/// query, and a failed build answers `None`: in each case the step stops,
/// with nothing changed and nothing handed back.
pub proof fn law_cursors_need_reader_and_query<H, R, C>(
    s: ChatContext<H, R, C>,
    held: u64,
    now: u64,
    kind: CursorKind,
    qk: QueryKind,
    query_ready: bool,
    viewer: Option<u128>,
)
    ensures
        (!query_ready || viewer is None) ==> s.cursor_step_spec(
            held,
            now,
            kind,
            CursorEvent::Gathered { query_ready, viewer },
        ) == (s, Access::Stop, no_leftovers::<H, R, C>()),
        s.cursor_step_spec(held, now, kind, CursorEvent::Failed) == (s, Access::Stop, no_leftovers::<H, R, C>()),
        s.query_step_spec(held, now, qk, QueryEvent::Failed) == (s, Access::Stop, no_leftovers::<H, R, C>()),
        (query_ready && viewer is Some && !s.is_ended() && now == held) ==> s.cursor_step_spec(
            held,
            now,
            kind,
            CursorEvent::Gathered { query_ready, viewer },
        ) == (s, Access::Build, no_leftovers::<H, R, C>()),
{
}

/// A second access in the same session is a cache lookup: when the cache
/// already holds a query (or manager) for the generation held and the signal
/// has not moved, the first step serves it, nothing is built, and nothing
/// changes or is handed back — every accessor gets the same one.
pub proof fn law_cached_is_served<H, R, C>(s: ChatContext<H, R, C>, held: u64, qk: QueryKind, ck: CursorKind)
    ensures
        s.peek_query_spec(held, qk) is Some ==> s.query_step_spec(held, held, qk, QueryEvent::Start) == (
            s,
            Access::Serve,
            no_leftovers::<H, R, C>(),
        ),
        s.peek_cursors_spec(held, ck) is Some ==> s.cursor_step_spec(held, held, ck, CursorEvent::Start) == (
            s,
            Access::Serve,
            no_leftovers::<H, R, C>(),
        ),
{
}

/// What an accessor builds is what it serves: a query built for the current
/// generation into a cache with none of its kind is published, and once its
/// registration is attached with the signal unmoved, the accessor is told to
/// serve, and the cache answers exactly that query.
pub proof fn law_built_query_is_served<H, R, C>(s: ChatContext<H, R, C>, held: u64, kind: QueryKind, q: H, r: R)
    requires
        !s.is_ended(),
        s.peek_query_spec(held, kind) is None,
    ensures
        s.query_step_spec(held, held, kind, QueryEvent::Built(q)).1 == Access::Register,
        s.query_step_spec(held, held, kind, QueryEvent::Built(q)).0.peek_query_spec(held, kind) == Some(q),
        ({
            let s2 = s.query_step_spec(held, held, kind, QueryEvent::Built(q)).0;
            &&& s2.query_step_spec(held, held, kind, QueryEvent::Registered(r)).1 == Access::Serve
            &&& s2.query_step_spec(held, held, kind, QueryEvent::Registered(r)).0.peek_query_spec(held, kind)
                == Some(q)
        }),
{
}

/// What a cursor accessor builds is what it serves: a manager built for the
/// current generation into a cache with none of its kind is cached and
/// served.
pub proof fn law_built_cursors_are_served<H, R, C>(s: ChatContext<H, R, C>, held: u64, kind: CursorKind, c: C)
    requires
        !s.is_ended(),
        s.peek_cursors_spec(held, kind) is None,
    ensures
        s.cursor_step_spec(held, held, kind, CursorEvent::Built(c)).1 == Access::Serve,
        s.cursor_step_spec(held, held, kind, CursorEvent::Built(c)).0.peek_cursors_spec(held, kind) == Some(c),
        s.cursor_step_spec(held, held, kind, CursorEvent::Built(c)).2.cursors is None,
{
}

/// After the host moves its session, the first access for the new
/// generation hands the whole previous cache back to be ended (its cursor
/// managers disposed) and starts from an empty one, so nothing built for the
/// departed session can be served again.
pub proof fn law_session_swap_hands_back<H, R, C>(s: ChatContext<H, R, C>, held: u64, qk: QueryKind, ck: CursorKind)
    requires
        !s.is_ended(),
        s.cache().built_for != held,
    ensures
        s.query_step_spec(held, held, qk, QueryEvent::Start).2.stale == Some(s.cache()),
        s.query_step_spec(held, held, qk, QueryEvent::Start).0.cache() == SessionCache::<H, R, C>::empty_for(held),
        s.query_step_spec(held, held, qk, QueryEvent::Start).1 == Access::Build,
        s.cursor_step_spec(held, held, ck, CursorEvent::Start).2.stale == Some(s.cache()),
        s.cursor_step_spec(held, held, ck, CursorEvent::Start).0.cache() == SessionCache::<H, R, C>::empty_for(held),
        s.cursor_step_spec(held, held, ck, CursorEvent::Start).1 == Access::Gather,
{
}

/// A handshake as the host first builds it, with no choices made (every
/// room, no auth-demand callback, no online or moderator reading): the first
/// session is version 0, the room set is not narrowed, the transport reads
/// as up, the reader cannot moderate, no sign-in ceremony can be raised, and
/// the reader is signed in exactly when the session has one.
pub proof fn law_fresh_handshake<H, R, C>(s: ChatContext<H, R, C>, viewer: Option<u128>)
    requires
        !s.is_ended(),
        s.rooms_predicate_view() == "true"@,
        !s.has_demand(),
    ensures
        s.generation_spec(version_after(None) as u64) == 0,
        trimmed(s.rooms_predicate_view()) == "true"@,
        online_spec(None),
        !can_moderate_spec(None),
        !(!s.is_ended() && s.has_demand()),
        (!s.is_ended() && viewer is Some) == (viewer is Some),
{
    reveal_strlit("true");
}

} // verus!

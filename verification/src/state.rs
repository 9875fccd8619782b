//! The registry of the scans in flight: it hands each session its place,
//! finds it again by its identifier, and lets go of it when its run is
//! over.

use vstd::prelude::*;

use crate::clock::{elapsed_millis, millis_between, Timestamp};
use crate::types::{ScanSession, ScanStatus};

verus! {

/// Settings of the application.
#[derive(Debug, Clone, Copy)]
pub struct VeloxConfig {
    pub max_concurrent_scans: usize,
    pub default_max_depth: usize,
    pub include_hidden_default: bool,
    pub follow_symlinks_default: bool,
    pub progress_emit_interval_ms: u64,
}

impl Default for VeloxConfig {
    fn default() -> (c: Self)
        ensures
            c.max_concurrent_scans == 4,
            c.default_max_depth == 100,
            !c.include_hidden_default,
            !c.follow_symlinks_default,
            c.progress_emit_interval_ms == 50,
    {
        VeloxConfig {
            max_concurrent_scans: 4,
            default_max_depth: 100,
            include_hidden_default: false,
            follow_symlinks_default: false,
            progress_emit_interval_ms: 50,
        }
    }
}

/// Whether a session with the identifier `id` is among `sessions`.
pub open spec fn knows(sessions: Seq<ScanSession>, id: Seq<char>) -> bool {
    exists|i: int| 0 <= i < sessions.len() && (#[trigger] sessions[i]).id.text() == id
}

/// The place of the session with the identifier `id` among `sessions`.
pub open spec fn slot(sessions: Seq<ScanSession>, id: Seq<char>) -> int {
    choose|i: int| 0 <= i < sessions.len() && (#[trigger] sessions[i]).id.text() == id
}

/// No two of `sessions` have the same identifier.
pub open spec fn distinct(sessions: Seq<ScanSession>) -> bool {
    forall|i: int, j: int|
        0 <= i < sessions.len() && 0 <= j < sessions.len() && (#[trigger] sessions[i]).id.text()
            == (#[trigger] sessions[j]).id.text() ==> i == j
}

/// `sessions` without the session that has the identifier `id`.
pub open spec fn without(sessions: Seq<ScanSession>, id: Seq<char>) -> Seq<ScanSession> {
    if knows(sessions, id) {
        sessions.remove(slot(sessions, id))
    } else {
        sessions
    }
}

/// The session as the registry keeps it: in the status `Scanning`, and
/// otherwise as it was given.
pub open spec fn registered(session: ScanSession) -> ScanSession {
    ScanSession { status: ScanStatus::Scanning, ..session }
}

/// How many of `sessions` are in the status `Scanning`.
pub open spec fn scanning(sessions: Seq<ScanSession>) -> nat
    decreases sessions.len(),
{
    if sessions.len() == 0 {
        0
    } else {
        scanning(sessions.drop_last()) + if sessions.last().status is Scanning {
            1nat
        } else {
            0nat
        }
    }
}

/// The state that the commands share: when the application started, the
/// sessions of the scans in flight, and the settings.
#[derive(Debug)]
pub struct VeloxState {
    started_at: Timestamp,
    active_scans: Vec<ScanSession>,
    config: VeloxConfig,
}

impl View for VeloxState {
    type V = Seq<ScanSession>;

    /// The sessions in flight, in the order in which they were registered.
    closed spec fn view(&self) -> Seq<ScanSession> {
        self.active_scans@
    }
}

impl VeloxState {
    /// No two sessions in flight have the same identifier.
    pub open spec fn wf(&self) -> bool {
        distinct(self@)
    }

    /// When the application started.
    pub closed spec fn started(&self) -> Timestamp {
        self.started_at
    }

    /// The settings of the application.
    pub closed spec fn settings(&self) -> VeloxConfig {
        self.config
    }

    /// A registry without sessions, started now, with the default
    /// settings.
    ///
    /// Panics if the system clock is set before 1970.
    pub fn new() -> (s: Self)
        ensures
            s.wf(),
            s@.len() == 0,
            s.started().text() is Some,
            s.settings().max_concurrent_scans == 4,
            s.settings().default_max_depth == 100,
            !s.settings().include_hidden_default,
            !s.settings().follow_symlinks_default,
            s.settings().progress_emit_interval_ms == 50,
    {
        VeloxState {
            started_at: Timestamp::now(),
            active_scans: Vec::new(),
            config: VeloxConfig::default(),
        }
    }

    /// When the application started.
    pub fn started_at(&self) -> (t: Timestamp)
        ensures
            t == self.started(),
    {
        self.started_at
    }

    /// The settings of the application.
    pub fn config(&self) -> (c: VeloxConfig)
        ensures
            c == self.settings(),
    {
        self.config
    }

    /// Milliseconds from the start of the application to `now`.
    pub fn uptime_at(&self, now: Timestamp) -> (r: u64)
        ensures
            r == millis_between(self.started(), now) % 0x1_0000_0000_0000_0000,
    {
        elapsed_millis(self.started_at, now)
    }

    /// Milliseconds since the start of the application, by the clock.
    ///
    /// Panics if the system clock is set before 1970.
    pub fn uptime_ms(&self) -> (r: u64)
        ensures
            exists|now: Timestamp|
                r == millis_between(self.started(), now) % 0x1_0000_0000_0000_0000,
    {
        let now = Timestamp::now();
        let r = self.uptime_at(now);
        assert(r == millis_between(self.started(), now) % 0x1_0000_0000_0000_0000);
        r
    }

    /// The place of the session with the identifier `id`, if there is one.
    fn find(&self, id: &str) -> (r: Option<usize>)
        requires
            self.wf(),
        ensures
            r is Some <==> knows(self@, id@),
            r matches Some(i) ==> i == slot(self@, id@) && i < self@.len() && self@[i as int].id.text()
                == id@,
    {
        let key = String::from_str(id);
        let mut i: usize = 0;
        while i < self.active_scans.len()
            invariant
                i <= self.active_scans@.len(),
                key@ == id@,
                distinct(self.active_scans@),
                forall|k: int| 0 <= k < i ==> (#[trigger] self.active_scans@[k]).id.text() != id@,
            decreases self.active_scans@.len() - i,
        {
            let text = self.active_scans[i].id.to_string();
            if text == key {
                proof {
                    assert(self@[i as int].id.text() == id@);
                    let j = slot(self@, id@);
                    assert(self@[j].id.text() == self@[i as int].id.text());
                }
                return Some(i);
            }
            i = i + 1;
        }
        None
    }

    /// Takes `session` into the registry and returns its identifier. The
    /// session is kept in the status `Scanning`, whatever its status was:
    /// from now on it counts among the active scans, until it is let go
    /// of. A session that was registered under the same identifier gives
    /// way.
    pub fn register_scan(&mut self, session: ScanSession) -> (id: String)
        requires
            old(self).wf(),
        ensures
            final(self).wf(),
            id@ == session.id.text(),
            final(self)@ == without(old(self)@, session.id.text()).push(registered(session)),
            scanning(final(self)@) == scanning(without(old(self)@, session.id.text())) + 1,
            final(self).started() == old(self).started(),
            final(self).settings() == old(self).settings(),
    {
        let id = session.id.to_string();
        match self.find(id.as_str()) {
            Some(i) => {
                self.active_scans.remove(i);
            },
            None => {},
        }
        proof {
            lemma_without(old(self)@, session.id.text());
            registered_is_found(old(self)@, session);
        }
        self.active_scans.push(ScanSession { status: ScanStatus::Scanning, ..session });
        id
    }

    /// The session with the identifier `scan_id`, if it is registered.
    pub fn get_scan(&self, scan_id: &str) -> (r: Option<&ScanSession>)
        requires
            self.wf(),
        ensures
            r is Some <==> knows(self@, scan_id@),
            r matches Some(s) ==> *s == self@[slot(self@, scan_id@)] && s.id.text() == scan_id@,
    {
        match self.find(scan_id) {
            Some(i) => Some(&self.active_scans[i]),
            None => None,
        }
    }

    /// Lets go of the session with the identifier `scan_id`. Nothing
    /// happens if there is none.
    pub fn remove_scan(&mut self, scan_id: &str)
        requires
            old(self).wf(),
        ensures
            final(self).wf(),
            final(self)@ == without(old(self)@, scan_id@),
            final(self).started() == old(self).started(),
            final(self).settings() == old(self).settings(),
    {
        match self.find(scan_id) {
            Some(i) => {
                self.active_scans.remove(i);
            },
            None => {},
        }
        proof {
            lemma_without(old(self)@, scan_id@);
        }
    }

    /// How many registered sessions are in the status `Scanning`.
    pub fn active_scan_count(&self) -> (n: usize)
        ensures
            n == scanning(self@),
    {
        let mut n: usize = 0;
        let mut i: usize = 0;
        while i < self.active_scans.len()
            invariant
                i <= self.active_scans@.len(),
                n == scanning(self.active_scans@.take(i as int)),
                n <= i,
            decreases self.active_scans@.len() - i,
        {
            proof {
                let next = self.active_scans@.take(i + 1);
                assert(next.drop_last() =~= self.active_scans@.take(i as int));
                assert(next.last() == self.active_scans@[i as int]);
            }
            if self.active_scans[i].status == ScanStatus::Scanning {
                n = n + 1;
            }
            i = i + 1;
        }
        assert(self.active_scans@.take(i as int) =~= self.active_scans@);
        n
    }

    /// Requests the cancellation of the scan with the identifier
    /// `scan_id`, and tells whether there is such a scan. The request is
    /// not waited for: the walk finds it at its next node.
    pub fn cancel_scan(&self, scan_id: &str) -> (found: bool)
        requires
            self.wf(),
        ensures
            found == knows(self@, scan_id@),
    {
        match self.get_scan(scan_id) {
            Some(session) => {
                session.cancel();
                true
            },
            None => false,
        }
    }
}

impl Default for VeloxState {
    /// Panics if the system clock is set before 1970.
    fn default() -> (s: Self)
        ensures
            s.wf(),
            s@.len() == 0,
    {
        VeloxState::new()
    }
}

/// Among sessions with distinct identifiers, what is left without one
/// identifier has distinct identifiers too, and none of them is that one;
/// every other session is still there.
pub proof fn lemma_without(sessions: Seq<ScanSession>, id: Seq<char>)
    requires
        distinct(sessions),
    ensures
        distinct(without(sessions, id)),
        !knows(without(sessions, id), id),
        forall|other: Seq<char>|
            other != id ==> (knows(without(sessions, id), other) <==> knows(sessions, other)),
        forall|other: Seq<char>|
            other != id && knows(sessions, other) ==> without(sessions, id)[slot(
                without(sessions, id),
                other,
            )] == sessions[slot(sessions, other)],
{
    let rest = without(sessions, id);
    if knows(sessions, id) {
        let at = slot(sessions, id);
        assert forall|i: int| 0 <= i < rest.len() implies (#[trigger] rest[i]) == sessions[if i
            < at {
            i
        } else {
            i + 1
        }] by {}
        assert forall|i: int, j: int|
            0 <= i < rest.len() && 0 <= j < rest.len() && (#[trigger] rest[i]).id.text() == (
            #[trigger] rest[j]).id.text() implies i == j by {
            let a = if i < at { i } else { i + 1 };
            let b = if j < at { j } else { j + 1 };
            assert(rest[i] == sessions[a] && rest[j] == sessions[b]);
        }
        if knows(rest, id) {
            let i = slot(rest, id);
            let a = if i < at { i } else { i + 1 };
            assert(rest[i] == sessions[a]);
            assert(false);
        }
    }
    assert forall|other: Seq<char>| other != id implies (knows(rest, other) <==> knows(
        sessions,
        other,
    )) by {
        if knows(rest, other) {
            let i = slot(rest, other);
            if knows(sessions, id) {
                let at = slot(sessions, id);
                let a = if i < at { i } else { i + 1 };
                assert(rest[i] == sessions[a]);
            }
        }
        if knows(sessions, other) {
            let a = slot(sessions, other);
            if knows(sessions, id) {
                let at = slot(sessions, id);
                let i = if a < at { a } else { a - 1 };
                assert(rest[i] == sessions[a]);
            }
        }
    }
    assert forall|other: Seq<char>| other != id && knows(sessions, other) implies rest[slot(
        rest,
        other,
    )] == sessions[slot(sessions, other)] by {
        let a = slot(sessions, other);
        assert(knows(rest, other));
        let i = slot(rest, other);
        if knows(sessions, id) {
            let at = slot(sessions, id);
            let b = if i < at { i } else { i + 1 };
            assert(rest[i] == sessions[b]);
            assert(a == b);
        } else {
            assert(a == i);
        }
    }
}

/// A session that has been registered is found under its identifier, in
/// the status `Scanning`, and counts as one more active scan; the sessions
/// registered under other identifiers are found as before.
pub proof fn registered_is_found(sessions: Seq<ScanSession>, session: ScanSession)
    requires
        distinct(sessions),
    ensures
        ({
            let after = without(sessions, session.id.text()).push(registered(session));
            &&& distinct(after)
            &&& knows(after, session.id.text())
            &&& after[slot(after, session.id.text())] == registered(session)
            &&& scanning(after) == scanning(without(sessions, session.id.text())) + 1
            &&& forall|other: Seq<char>|
                other != session.id.text() ==> (knows(after, other) <==> knows(sessions, other))
            &&& forall|other: Seq<char>|
                other != session.id.text() && knows(sessions, other) ==> after[slot(after, other)]
                    == sessions[slot(sessions, other)]
        }),
{
    let id = session.id.text();
    let rest = without(sessions, id);
    let after = rest.push(registered(session));
    lemma_without(sessions, id);
    assert(after.drop_last() =~= rest);
    assert(after.last() == registered(session));
    assert forall|i: int, j: int|
        0 <= i < after.len() && 0 <= j < after.len() && (#[trigger] after[i]).id.text() == (
        #[trigger] after[j]).id.text() implies i == j by {
        if i < rest.len() {
            assert(after[i] == rest[i]);
        }
        if j < rest.len() {
            assert(after[j] == rest[j]);
        }
    }
    assert(after[rest.len() as int] == registered(session));
    assert(knows(after, id));
    assert forall|other: Seq<char>| other != id implies (knows(after, other) <==> knows(
        sessions,
        other,
    )) by {
        if knows(after, other) {
            let i = slot(after, other);
            assert(after[i] == rest[i]);
        }
        if knows(rest, other) {
            let i = slot(rest, other);
            assert(after[i] == rest[i]);
        }
    }
    assert forall|other: Seq<char>| other != id && knows(sessions, other) implies after[slot(
        after,
        other,
    )] == sessions[slot(sessions, other)] by {
        assert(knows(rest, other));
        let i = slot(rest, other);
        assert(after[i] == rest[i]);
        assert(knows(after, other));
        let j = slot(after, other);
        assert(j == i);
    }
}

} // verus!

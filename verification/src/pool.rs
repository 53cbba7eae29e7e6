//! The connection pool: a registry mapping each connection identifier to its
//! cached driver handle, configuration snapshot, status, last error, last-use
//! time and owned tunnel.
//!
//! Network work is performed outside the crate.  The pool records its
//! outcomes: a connect is `begin_connect` (an existing entry becomes
//! `Reconnecting`), then the factory and the driver probe run outside, then
//! `complete_connect` stores the result.  Driver and tunnel values are
//! represented by opaque handles owned by the caller's arena.

use vstd::prelude::*;

use crate::config::{ConnectionConfig, ConnectionStatus, TestConnectionResult};

verus! {

/// The cached state for one connection identifier.
pub struct PoolEntry {
    pub id: String,
    pub driver: u64,
    pub config: ConnectionConfig,
    pub status: ConnectionStatus,
    pub last_error: Option<String>,
    pub last_used: u64,
    pub tunnel: Option<u64>,
}

/// Whether some entry of `s` carries the identifier `id`.
pub open spec fn seq_has(s: Seq<PoolEntry>, id: Seq<char>) -> bool {
    exists|i: int| 0 <= i < s.len() && (#[trigger] s[i]).id@ == id
}

/// Entries carry pairwise distinct identifiers.
pub open spec fn seq_wf(s: Seq<PoolEntry>) -> bool {
    forall|i: int, j: int| 0 <= i < j < s.len()
        ==> (#[trigger] s[i]).id@ != (#[trigger] s[j]).id@
}

/// The position of the entry carrying `id`.
pub open spec fn seq_idx(s: Seq<PoolEntry>, id: Seq<char>) -> int {
    choose|i: int| 0 <= i < s.len() && (#[trigger] s[i]).id@ == id
}

/// The entry carrying `id`.
pub open spec fn seq_entry(s: Seq<PoolEntry>, id: Seq<char>) -> PoolEntry {
    s[seq_idx(s, id)]
}

/// The entry at a position is the entry found for its own identifier.
proof fn lemma_entry_at(s: Seq<PoolEntry>, i: int)
    requires
        seq_wf(s),
        0 <= i < s.len(),
    ensures
        seq_has(s, s[i].id@),
        seq_idx(s, s[i].id@) == i,
        seq_entry(s, s[i].id@) == s[i],
{
    assert(seq_has(s, s[i].id@));
    let j = seq_idx(s, s[i].id@);
    if j != i {
        if j < i {
            assert(s[j].id@ != s[i].id@);
        } else {
            assert(s[i].id@ != s[j].id@);
        }
    }
}

/// Replacing the entry at `i` with one carrying the same identifier keeps
/// the registry well formed and leaves every other identifier untouched.
proof fn lemma_update_frame(s: Seq<PoolEntry>, i: int, e: PoolEntry)
    requires
        seq_wf(s),
        0 <= i < s.len(),
        e.id@ == s[i].id@,
    ensures
        seq_wf(s.update(i, e)),
        seq_has(s.update(i, e), e.id@),
        seq_entry(s.update(i, e), e.id@) == e,
        forall|o: Seq<char>| o != e.id@
            ==> #[trigger] seq_has(s.update(i, e), o) == seq_has(s, o),
        forall|o: Seq<char>| o != e.id@ && seq_has(s, o)
            ==> #[trigger] seq_entry(s.update(i, e), o) == seq_entry(s, o),
{
    let t = s.update(i, e);
    assert forall|a: int, b: int| 0 <= a < b < t.len()
        implies (#[trigger] t[a]).id@ != (#[trigger] t[b]).id@ by {
        assert(s[a].id@ != s[b].id@);
    }
    lemma_entry_at(t, i);
    assert forall|o: Seq<char>| o != e.id@
        implies #[trigger] seq_has(t, o) == seq_has(s, o) by {
        if seq_has(t, o) {
            let j = seq_idx(t, o);
            assert(t[j].id@ == o);
            assert(j != i);
            assert(s[j].id@ == o);
            assert(seq_has(s, o));
        }
        if seq_has(s, o) {
            let j = seq_idx(s, o);
            assert(s[j].id@ == o);
            assert(j != i);
            assert(t[j].id@ == o);
            assert(seq_has(t, o));
        }
    }
    assert forall|o: Seq<char>| o != e.id@ && seq_has(s, o)
        implies #[trigger] seq_entry(t, o) == seq_entry(s, o) by {
        let j = seq_idx(s, o);
        assert(s[j].id@ == o);
        assert(j != i);
        lemma_entry_at(s, j);
        assert(t[j] == s[j]);
        lemma_entry_at(t, j);
    }
}

/// Removing the entry at `i` keeps the registry well formed, removes its
/// identifier, and leaves every other identifier untouched.
proof fn lemma_remove_frame(s: Seq<PoolEntry>, i: int)
    requires
        seq_wf(s),
        0 <= i < s.len(),
    ensures
        seq_wf(s.remove(i)),
        !seq_has(s.remove(i), s[i].id@),
        forall|o: Seq<char>| o != s[i].id@
            ==> #[trigger] seq_has(s.remove(i), o) == seq_has(s, o),
        forall|o: Seq<char>| o != s[i].id@ && seq_has(s, o)
            ==> #[trigger] seq_entry(s.remove(i), o) == seq_entry(s, o),
{
    let t = s.remove(i);
    assert forall|a: int, b: int| 0 <= a < b < t.len()
        implies (#[trigger] t[a]).id@ != (#[trigger] t[b]).id@ by {
        let a0 = if a < i { a } else { a + 1 };
        let b0 = if b < i { b } else { b + 1 };
        assert(t[a] == s[a0]);
        assert(t[b] == s[b0]);
        assert(s[a0].id@ != s[b0].id@);
    }
    assert forall|j: int| 0 <= j < t.len() implies (#[trigger] t[j]).id@ != s[i].id@ by {
        let j0 = if j < i { j } else { j + 1 };
        assert(t[j] == s[j0]);
        if j0 < i {
            assert(s[j0].id@ != s[i].id@);
        } else {
            assert(s[i].id@ != s[j0].id@);
        }
    }
    assert forall|o: Seq<char>| o != s[i].id@
        implies #[trigger] seq_has(t, o) == seq_has(s, o) by {
        if seq_has(t, o) {
            let j = seq_idx(t, o);
            let j0 = if j < i { j } else { j + 1 };
            assert(t[j] == s[j0]);
            assert(seq_has(s, o));
        }
        if seq_has(s, o) {
            let j = seq_idx(s, o);
            assert(s[j].id@ == o);
            assert(j != i);
            let j1 = if j < i { j } else { j - 1 };
            assert(t[j1] == s[j]);
            assert(seq_has(t, o));
        }
    }
    assert forall|o: Seq<char>| o != s[i].id@ && seq_has(s, o)
        implies #[trigger] seq_entry(t, o) == seq_entry(s, o) by {
        let j = seq_idx(s, o);
        lemma_entry_at(s, j);
        assert(j != i);
        let j1 = if j < i { j } else { j - 1 };
        assert(t[j1] == s[j]);
        lemma_entry_at(t, j1);
    }
}

/// Appending an entry with a fresh identifier keeps the registry well
/// formed, adds its identifier, and leaves every other identifier untouched.
proof fn lemma_push_frame(s: Seq<PoolEntry>, e: PoolEntry)
    requires
        seq_wf(s),
        !seq_has(s, e.id@),
    ensures
        seq_wf(s.push(e)),
        seq_has(s.push(e), e.id@),
        seq_entry(s.push(e), e.id@) == e,
        forall|o: Seq<char>| o != e.id@
            ==> #[trigger] seq_has(s.push(e), o) == seq_has(s, o),
        forall|o: Seq<char>| o != e.id@ && seq_has(s, o)
            ==> #[trigger] seq_entry(s.push(e), o) == seq_entry(s, o),
{
    let t = s.push(e);
    assert forall|a: int, b: int| 0 <= a < b < t.len()
        implies (#[trigger] t[a]).id@ != (#[trigger] t[b]).id@ by {
        if b == s.len() {
            assert(t[a] == s[a]);
            assert(t[b] == e);
            if s[a].id@ == e.id@ {
                assert(seq_has(s, e.id@));
            }
        } else {
            assert(t[a] == s[a]);
            assert(t[b] == s[b]);
            assert(s[a].id@ != s[b].id@);
        }
    }
    lemma_entry_at(t, s.len() as int);
    assert(t[s.len() as int] == e);
    assert forall|o: Seq<char>| o != e.id@
        implies #[trigger] seq_has(t, o) == seq_has(s, o) by {
        if seq_has(t, o) {
            let j = seq_idx(t, o);
            assert(t[j].id@ == o);
            assert(j != s.len());
            assert(t[j] == s[j]);
            assert(seq_has(s, o));
        }
        if seq_has(s, o) {
            let j = seq_idx(s, o);
            assert(s[j].id@ == o);
            assert(t[j] == s[j]);
            assert(seq_has(t, o));
        }
    }
    assert forall|o: Seq<char>| o != e.id@ && seq_has(s, o)
        implies #[trigger] seq_entry(t, o) == seq_entry(s, o) by {
        let j = seq_idx(s, o);
        lemma_entry_at(s, j);
        assert(t[j] == s[j]);
        lemma_entry_at(t, j);
    }
}

/// The next step of a health check: probe the cached driver, or report the
/// synthetic failure for an identifier with no entry.
pub enum HealthStep {
    Probe(u64),
    NotFound(TestConnectionResult),
}

/// Response carrying the status of a connection and its last error.
pub struct ConnectionStatusResponse {
    pub status: ConnectionStatus,
    pub error: Option<String>,
}

/// The connection pool registry.
pub struct PoolManager {
    entries: Vec<PoolEntry>,
}

impl PoolManager {
    /// Identifiers are pairwise distinct.
    pub closed spec fn wf(&self) -> bool {
        seq_wf(self.entries@)
    }

    /// Whether an entry exists for `id`.
    pub closed spec fn has(&self, id: Seq<char>) -> bool {
        seq_has(self.entries@, id)
    }

    /// The entry for `id`, when one exists.
    pub closed spec fn entry(&self, id: Seq<char>) -> PoolEntry {
        seq_entry(self.entries@, id)
    }

    /// The status of `id`: its entry's status, or `Disconnected` when no
    /// entry exists.
    pub open spec fn spec_status(&self, id: Seq<char>) -> ConnectionStatus {
        if self.has(id) {
            self.entry(id).status
        } else {
            ConnectionStatus::Disconnected
        }
    }

    /// The cached driver handle of `id`, when an entry exists.
    pub open spec fn spec_cached(&self, id: Seq<char>) -> Option<u64> {
        if self.has(id) {
            Some(self.entry(id).driver)
        } else {
            None
        }
    }

    /// Whether a get-or-create for `id` must run the connect path: exactly
    /// when no entry is cached.
    pub open spec fn spec_needs_connect(&self, id: Seq<char>) -> bool {
        !self.has(id)
    }

    /// An empty pool.
    pub fn new() -> (r: Self)
        ensures
            r.wf(),
            forall|id: Seq<char>| !r.has(id),
    {
        let r = PoolManager { entries: Vec::new() };
        proof {
            assert(forall|id: Seq<char>| !r.has(id)) by {
                assert(r.entries@.len() == 0);
            }
        }
        r
    }

    /// The position of the entry for `id`, when one exists.
    fn find(&self, id: &str) -> (r: Option<usize>)
        requires
            self.wf(),
        ensures
            r matches Some(i) ==> i < self.entries@.len() && self.entries@[i as int].id@ == id@
                && self.has(id@) && seq_idx(self.entries@, id@) == i
                && self.entry(id@) == self.entries@[i as int],
            r is None ==> !self.has(id@),
    {
        let mut i: usize = 0;
        while i < self.entries.len()
            invariant
                self.wf(),
                i <= self.entries@.len(),
                forall|k: int| 0 <= k < i ==> (#[trigger] self.entries@[k]).id@ != id@,
            decreases self.entries@.len() - i,
        {
            if crate::text::str_eq(self.entries[i].id.as_str(), id) {
                proof {
                    lemma_entry_at(self.entries@, i as int);
                }
                return Some(i);
            }
            i = i + 1;
        }
        proof {
            assert(!self.has(id@)) by {
                if seq_has(self.entries@, id@) {
                    let j = seq_idx(self.entries@, id@);
                    assert(self.entries@[j].id@ == id@);
                }
            }
        }
        None
    }

    /// The status of `id`; an absent identifier is `Disconnected`.
    pub fn get_status(&self, id: &str) -> (st: ConnectionStatus)
        requires
            self.wf(),
        ensures
            st == self.spec_status(id@),
    {
        match self.find(id) {
            Some(i) => self.entries[i].status,
            None => ConnectionStatus::Disconnected,
        }
    }

    /// The last error recorded for `id`.
    pub fn get_last_error(&self, id: &str) -> (r: Option<String>)
        requires
            self.wf(),
        ensures
            r == if self.has(id@) {
                self.entry(id@).last_error
            } else {
                None::<String>
            },
    {
        match self.find(id) {
            Some(i) => crate::config::clone_opt_string(&self.entries[i].last_error),
            None => None,
        }
    }

    /// The cached driver handle of `id`, whatever the entry's status.
    pub fn get_cached(&self, id: &str) -> (r: Option<u64>)
        requires
            self.wf(),
        ensures
            r == self.spec_cached(id@),
    {
        match self.find(id) {
            Some(i) => Some(self.entries[i].driver),
            None => None,
        }
    }

    /// The driver handle of `id` when its entry is `Connected`: the fast
    /// path of get-or-create, which touches no network.
    pub fn get_connected(&self, id: &str) -> (r: Option<u64>)
        requires
            self.wf(),
        ensures
            r is Some <==> self.has(id@) && self.entry(id@).status == ConnectionStatus::Connected,
            r matches Some(d) ==> d == self.entry(id@).driver,
    {
        match self.find(id) {
            Some(i) => {
                if self.entries[i].status == ConnectionStatus::Connected {
                    Some(self.entries[i].driver)
                } else {
                    None
                }
            },
            None => None,
        }
    }

    /// The tunnel handle owned by the entry for `id`, when one exists: the
    /// tunnel's lifetime is tied to the entry, so whoever removes or
    /// replaces the entry must tear the tunnel down.
    pub fn get_tunnel(&self, id: &str) -> (r: Option<u64>)
        requires
            self.wf(),
        ensures
            r == if self.has(id@) {
                self.entry(id@).tunnel
            } else {
                None::<u64>
            },
    {
        match self.find(id) {
            Some(i) => self.entries[i].tunnel,
            None => None,
        }
    }

    /// The configuration snapshot the entry for `id` was built from.
    pub fn get_config(&self, id: &str) -> (r: Option<ConnectionConfig>)
        requires
            self.wf(),
        ensures
            r == if self.has(id@) {
                Some(self.entry(id@).config)
            } else {
                None::<ConnectionConfig>
            },
    {
        match self.find(id) {
            Some(i) => Some(self.entries[i].config.clone_of()),
            None => None,
        }
    }

    /// Whether a get-or-create for `id` must run the connect path.  The
    /// caller holds the identifier's connect lock around this check and the
    /// connect itself, so two callers never both see `true`.
    pub fn needs_connect(&self, id: &str) -> (b: bool)
        requires
            self.wf(),
        ensures
            b == self.spec_needs_connect(id@),
    {
        match self.find(id) {
            Some(_) => false,
            None => true,
        }
    }

    /// Record the start of a (re)connect: an existing entry becomes
    /// `Reconnecting`; an absent identifier is left absent.
    pub fn begin_connect(&mut self, id: &str)
        requires
            old(self).wf(),
        ensures
            final(self).wf(),
            final(self).has(id@) == old(self).has(id@),
            old(self).has(id@) ==> final(self).entry(id@) == (PoolEntry {
                status: ConnectionStatus::Reconnecting,
                ..old(self).entry(id@)
            }),
            !old(self).has(id@) ==> *final(self) == *old(self),
            forall|o: Seq<char>| o != id@
                ==> #[trigger] final(self).has(o) == old(self).has(o),
            forall|o: Seq<char>| o != id@ && old(self).has(o)
                ==> #[trigger] final(self).entry(o) == old(self).entry(o),
    {
        let found = self.find(id);
        match found {
            Some(i) => {
                let ghost pre = self.entries@;
                let e = &mut self.entries[i];
                e.status = ConnectionStatus::Reconnecting;
                proof {
                    lemma_update_frame(pre, i as int, self.entries@[i as int]);
                }
            },
            None => {},
        }
    }

    /// Record the outcome of a connect attempt: the entry for `id` is
    /// replaced (or created) with the new driver, configuration, tunnel and
    /// probe outcome.  A successful probe stores a `Connected` entry with no
    /// error and returns the driver handle; a failed probe stores a
    /// `Disconnected` entry carrying the probe's message and returns that
    /// message as the error — the entry is stored either way, so status and
    /// error stay queryable.
    pub fn complete_connect(
        &mut self,
        id: &str,
        config: ConnectionConfig,
        driver: u64,
        tunnel: Option<u64>,
        now: u64,
        test: &TestConnectionResult,
    ) -> (r: Result<u64, String>)
        requires
            old(self).wf(),
        ensures
            final(self).wf(),
            final(self).has(id@),
            final(self).entry(id@).id@ == id@,
            final(self).entry(id@).driver == driver,
            final(self).entry(id@).config == config,
            final(self).entry(id@).tunnel == tunnel,
            final(self).entry(id@).last_used == now,
            final(self).entry(id@).status == if test.success {
                ConnectionStatus::Connected
            } else {
                ConnectionStatus::Disconnected
            },
            final(self).entry(id@).last_error == if test.success {
                None::<String>
            } else {
                Some(test.message)
            },
            test.success ==> final(self).spec_status(id@) == ConnectionStatus::Connected
                && final(self).spec_cached(id@) == Some(driver),
            !test.success ==> final(self).spec_status(id@) == ConnectionStatus::Disconnected,
            test.success ==> r == Ok::<u64, String>(driver),
            !test.success ==> (r matches Err(m) && m == test.message),
            forall|o: Seq<char>| o != id@
                ==> #[trigger] final(self).has(o) == old(self).has(o),
            forall|o: Seq<char>| o != id@ && old(self).has(o)
                ==> #[trigger] final(self).entry(o) == old(self).entry(o),
    {
        let entry = PoolEntry {
            id: id.to_owned(),
            driver,
            config,
            status: if test.success {
                ConnectionStatus::Connected
            } else {
                ConnectionStatus::Disconnected
            },
            last_error: if test.success {
                None
            } else {
                Some(test.message.clone())
            },
            last_used: now,
            tunnel,
        };
        let found = self.find(id);
        let ghost pre = self.entries@;
        match found {
            Some(i) => {
                self.entries.set(i, entry);
                proof {
                    lemma_update_frame(pre, i as int, self.entries@[i as int]);
                }
            },
            None => {
                self.entries.push(entry);
                proof {
                    lemma_push_frame(pre, self.entries@[pre.len() as int]);
                }
            },
        }
        if test.success {
            Ok(driver)
        } else {
            Err(test.message.clone())
        }
    }

    /// Remove the entry for `id` entirely; dropping it releases the driver
    /// and terminates any owned tunnel in the caller's arena.
    pub fn disconnect(&mut self, id: &str)
        requires
            old(self).wf(),
        ensures
            final(self).wf(),
            !final(self).has(id@),
            final(self).spec_status(id@) == ConnectionStatus::Disconnected,
            final(self).spec_cached(id@) is None,
            forall|o: Seq<char>| o != id@
                ==> #[trigger] final(self).has(o) == old(self).has(o),
            forall|o: Seq<char>| o != id@ && old(self).has(o)
                ==> #[trigger] final(self).entry(o) == old(self).entry(o),
    {
        let found = self.find(id);
        match found {
            Some(i) => {
                let ghost pre = self.entries@;
                self.entries.remove(i);
                proof {
                    lemma_remove_frame(pre, i as int);
                }
            },
            None => {},
        }
    }

    /// Refresh the last-use time of `id`.
    pub fn touch(&mut self, id: &str, now: u64)
        requires
            old(self).wf(),
        ensures
            final(self).wf(),
            final(self).has(id@) == old(self).has(id@),
            old(self).has(id@) ==> final(self).entry(id@) == (PoolEntry {
                last_used: now,
                ..old(self).entry(id@)
            }),
            !old(self).has(id@) ==> *final(self) == *old(self),
            forall|o: Seq<char>| o != id@
                ==> #[trigger] final(self).has(o) == old(self).has(o),
            forall|o: Seq<char>| o != id@ && old(self).has(o)
                ==> #[trigger] final(self).entry(o) == old(self).entry(o),
    {
        let found = self.find(id);
        match found {
            Some(i) => {
                let ghost pre = self.entries@;
                let e = &mut self.entries[i];
                e.last_used = now;
                proof {
                    lemma_update_frame(pre, i as int, self.entries@[i as int]);
                }
            },
            None => {},
        }
    }

    /// Mark the entry for `id` as `Disconnected` with the given error, as
    /// after a failed operation; an absent identifier is left absent.
    pub fn mark_disconnected(&mut self, id: &str, error: Option<String>)
        requires
            old(self).wf(),
        ensures
            final(self).wf(),
            final(self).has(id@) == old(self).has(id@),
            final(self).spec_status(id@) == ConnectionStatus::Disconnected,
            old(self).has(id@) ==> final(self).entry(id@) == (PoolEntry {
                status: ConnectionStatus::Disconnected,
                last_error: error,
                ..old(self).entry(id@)
            }),
            !old(self).has(id@) ==> *final(self) == *old(self),
            forall|o: Seq<char>| o != id@
                ==> #[trigger] final(self).has(o) == old(self).has(o),
            forall|o: Seq<char>| o != id@ && old(self).has(o)
                ==> #[trigger] final(self).entry(o) == old(self).entry(o),
    {
        let found = self.find(id);
        match found {
            Some(i) => {
                let ghost pre = self.entries@;
                let e = &mut self.entries[i];
                e.status = ConnectionStatus::Disconnected;
                e.last_error = error;
                proof {
                    lemma_update_frame(pre, i as int, self.entries@[i as int]);
                }
            },
            None => {},
        }
    }

    /// Begin a health check on `id`: hand out the cached driver handle for
    /// probing, or — when no entry exists — the synthetic failure result,
    /// without creating an entry (the pool is not even mutable here).
    pub fn health_check_start(&self, id: &str) -> (r: HealthStep)
        requires
            self.wf(),
        ensures
            self.has(id@) ==> (r matches HealthStep::Probe(d) && d == self.entry(id@).driver),
            !self.has(id@) ==> (r matches HealthStep::NotFound(t) && !t.success
                && t.message@ == "Connection not found"@),
    {
        match self.find(id) {
            Some(i) => HealthStep::Probe(self.entries[i].driver),
            None => HealthStep::NotFound(TestConnectionResult {
                success: false,
                message: String::from_str("Connection not found"),
            }),
        }
    }

    /// Record the outcome of a health-check probe: the entry's status
    /// follows the probe result, and the error is cleared on success or set
    /// to the probe's message on failure.  An absent identifier is left
    /// absent.
    pub fn apply_health_result(&mut self, id: &str, result: &TestConnectionResult)
        requires
            old(self).wf(),
        ensures
            final(self).wf(),
            final(self).has(id@) == old(self).has(id@),
            old(self).has(id@) ==> final(self).entry(id@) == (PoolEntry {
                status: if result.success {
                    ConnectionStatus::Connected
                } else {
                    ConnectionStatus::Disconnected
                },
                last_error: if result.success {
                    None::<String>
                } else {
                    Some(result.message)
                },
                ..old(self).entry(id@)
            }),
            !old(self).has(id@) ==> *final(self) == *old(self),
            forall|o: Seq<char>| o != id@
                ==> #[trigger] final(self).has(o) == old(self).has(o),
            forall|o: Seq<char>| o != id@ && old(self).has(o)
                ==> #[trigger] final(self).entry(o) == old(self).entry(o),
    {
        let found = self.find(id);
        match found {
            Some(i) => {
                let ghost pre = self.entries@;
                let e = &mut self.entries[i];
                if result.success {
                    e.status = ConnectionStatus::Connected;
                    e.last_error = None;
                } else {
                    e.status = ConnectionStatus::Disconnected;
                    e.last_error = Some(result.message.clone());
                }
                proof {
                    lemma_update_frame(pre, i as int, self.entries@[i as int]);
                }
            },
            None => {},
        }
    }

    /// The status and last error of `id` in one response.
    pub fn status_response(&self, id: &str) -> (r: ConnectionStatusResponse)
        requires
            self.wf(),
        ensures
            r.status == self.spec_status(id@),
            r.error == if self.has(id@) {
                self.entry(id@).last_error
            } else {
                None::<String>
            },
    {
        ConnectionStatusResponse {
            status: self.get_status(id),
            error: self.get_last_error(id),
        }
    }
}

impl Default for PoolManager {
    /// An empty pool.
    fn default() -> (r: Self)
        ensures
            r.wf(),
            forall|id: Seq<char>| !r.has(id),
    {
        PoolManager::new()
    }
}

/// Connect attempts for one identifier are serialized by its connect lock,
/// and a completed connect always leaves an entry cached, whatever the probe
/// outcome.  So when a second get-or-create for the same identifier runs
/// after the first caller's connect, it finds the entry and does not run the
/// connect path: only one driver (and, with SSH, one tunnel) is ever
/// constructed for a never-before-seen identifier.
pub proof fn lemma_serialized_get_or_create(pool_after_first: PoolManager, id: Seq<char>)
    requires
        pool_after_first.has(id),
    ensures
        !pool_after_first.spec_needs_connect(id),
{
}

} // verus!

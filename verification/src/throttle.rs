//! Fixed-window request counting per key.
//!
//! A table maps keys (an endpoint and a client, an account and an address,
//! ...) to a record `(count, started_ms)`: how many requests were counted
//! in the window that started at `started_ms`. Times are milliseconds on a
//! monotonic clock chosen by the caller.

use vstd::prelude::*;

use crate::status::HttpStatus;

verus! {

broadcast use vstd::string::group_string_axioms, vstd::map::group_map_axioms, vstd::set::group_set_axioms, vstd::map_lib::group_map_properties;

/// Milliseconds from `start` to `now`, zero when `start` lies ahead
/// (as `Instant::duration_since` saturates).
pub open spec fn elapsed(now: u64, start: u64) -> int {
    if now >= start {
        now - start
    } else {
        0
    }
}

/// A record whose window is over at `now`.
pub open spec fn is_stale(r: (u32, u64), now: u64, window_ms: u64) -> bool {
    elapsed(now, r.1) > window_ms
}

/// One more counted request (the count stops at `u32::MAX`).
pub open spec fn bump(c: u32) -> u32 {
    if c == u32::MAX {
        c
    } else {
        (c + 1) as u32
    }
}

/// The record after one request: a missing or stale record restarts the
/// window at `now` with a count of one, a live one counts one more.
pub open spec fn hit_record(prior: Option<(u32, u64)>, now: u64, window_ms: u64) -> (u32, u64) {
    match prior {
        None => (1, now),
        Some(r) => if is_stale(r, now, window_ms) {
            (1, now)
        } else {
            (bump(r.0), r.1)
        },
    }
}

/// Whether the request restarted a stale window.
pub open spec fn hit_restarts(prior: Option<(u32, u64)>, now: u64, window_ms: u64) -> bool {
    prior matches Some(r) && is_stale(r, now, window_ms)
}

/// The table after the size-triggered clean-up: when it holds more than
/// `limit` keys, the stale records are dropped.
pub open spec fn pruned(m: Map<Seq<char>, (u32, u64)>, limit: nat, now: u64, window_ms: u64) -> Map<
    Seq<char>,
    (u32, u64),
> {
    if m.len() > limit {
        live_part(m, now, window_ms)
    } else {
        m
    }
}

/// The records of `m` whose window is still running at `now`.
pub open spec fn live_part(m: Map<Seq<char>, (u32, u64)>, now: u64, window_ms: u64) -> Map<
    Seq<char>,
    (u32, u64),
> {
    m.filter_keys(|k: Seq<char>| !is_stale(m[k], now, window_ms))
}

pub proof fn lemma_live_part(m: Map<Seq<char>, (u32, u64)>, now: u64, window_ms: u64)
    ensures
        forall|k: Seq<char>|
            #[trigger] live_part(m, now, window_ms).contains_key(k) <==> m.contains_key(k)
                && !is_stale(m[k], now, window_ms),
        forall|k: Seq<char>|
            #[trigger] live_part(m, now, window_ms).contains_key(k) ==> live_part(
                m,
                now,
                window_ms,
            )[k] == m[k],
{
}

/// One counted request.
pub struct Attempt {
    pub key: String,
    pub count: u32,
    pub started_ms: u64,
}

/// `entries` hold exactly the records of `model`, one entry per key.
pub open spec fn table_ok(entries: Seq<Attempt>, model: Map<Seq<char>, (u32, u64)>) -> bool {
    &&& model.dom().finite()
    &&& model.len() == entries.len()
    &&& forall|i: int, j: int|
        0 <= i < j < entries.len() ==> #[trigger] entries[i].key@ != #[trigger] entries[j].key@
    &&& forall|i: int|
        0 <= i < entries.len() ==> #[trigger] model.get(entries[i].key@) == Some(
            (entries[i].count, entries[i].started_ms),
        )
    &&& forall|k: Seq<char>|
        #[trigger] model.contains_key(k) ==> exists|i: int|
            0 <= i < entries.len() && #[trigger] entries[i].key@ == k
}

/// Request counts per key.
pub struct AttemptTable {
    entries: Vec<Attempt>,
    model: Ghost<Map<Seq<char>, (u32, u64)>>,
}

impl View for AttemptTable {
    type V = Map<Seq<char>, (u32, u64)>;

    closed spec fn view(&self) -> Map<Seq<char>, (u32, u64)> {
        self.model@
    }
}

impl AttemptTable {
    /// The entries agree with the model, one entry per key.
    pub closed spec fn wf(&self) -> bool {
        table_ok(self.entries@, self.model@)
    }

    pub fn new() -> (t: Self)
        ensures
            t.wf(),
            t@ == Map::<Seq<char>, (u32, u64)>::empty(),
    {
        AttemptTable { entries: Vec::new(), model: Ghost(Map::empty()) }
    }

    /// Number of keys held.
    pub fn len(&self) -> (n: usize)
        requires
            self.wf(),
        ensures
            n == self@.len(),
    {
        self.entries.len()
    }

    fn index_of(&self, key: &String) -> (r: Option<usize>)
        requires
            self.wf(),
        ensures
            r matches Some(i) ==> i < self.entries.len() && self.entries[i as int].key@ == key@,
            r is None ==> !self@.contains_key(key@),
    {
        let mut i: usize = 0;
        while i < self.entries.len()
            invariant
                self.wf(),
                i <= self.entries.len(),
                forall|j: int| 0 <= j < i ==> self.entries[j].key@ != key@,
            decreases self.entries.len() - i,
        {
            if self.entries[i].key == *key {
                return Some(i);
            }
            i = i + 1;
        }
        proof {
            if self@.contains_key(key@) {
                let j = choose|j: int| 0 <= j < self.entries.len() && #[trigger] self.entries[j].key@ == key@;
                assert(self.entries[j].key@ == key@);
            }
        }
        None
    }

    /// The record held for `key`.
    pub fn get(&self, key: &str) -> (r: Option<(u32, u64)>)
        requires
            self.wf(),
        ensures
            r == self@.get(key@),
    {
        let k = key.to_owned();
        match self.index_of(&k) {
            Some(i) => {
                proof {
                    assert(self@.get(self.entries[i as int].key@) == Some(
                        (self.entries[i as int].count, self.entries[i as int].started_ms),
                    ));
                }
                Some((self.entries[i].count, self.entries[i].started_ms))
            },
            None => None,
        }
    }

    /// Whether `key` has reached `threshold` requests in a window still
    /// running at `now`.
    pub fn is_blocked(&self, key: &str, now: u64, window_ms: u64, threshold: u32) -> (r: bool)
        requires
            self.wf(),
        ensures
            r == (self@.get(key@) matches Some(rec) && !is_stale(rec, now, window_ms) && rec.0
                >= threshold),
    {
        match self.get(key) {
            Some((count, started)) => {
                let el = if now >= started {
                    now - started
                } else {
                    0
                };
                el <= window_ms && count >= threshold
            },
            None => false,
        }
    }

    /// Forgets `key`.
    pub fn remove(&mut self, key: &str)
        requires
            old(self).wf(),
        ensures
            final(self).wf(),
            final(self)@ == old(self)@.remove(key@),
    {
        let k = key.to_owned();
        match self.index_of(&k) {
            None => {
                assert(self@.remove(key@) =~= self@);
            },
            Some(i) => {
                let ghost old_entries = self.entries@;
                let ghost old_model = self.model@;
                proof {
                    assert(old_model.get(old_entries[i as int].key@) == Some(
                        (old_entries[i as int].count, old_entries[i as int].started_ms),
                    ));
                    assert(old_model.contains_key(key@));
                }
                self.entries.remove(i);
                self.model = Ghost(old_model.remove(key@));
                proof {
                    assert forall|j: int| 0 <= j < self.entries.len() implies #[trigger] self.model@.get(
                        self.entries[j].key@,
                    ) == Some((self.entries[j].count, self.entries[j].started_ms)) by {
                        if j < i {
                            assert(self.entries[j] == old_entries[j]);
                            assert(old_entries[j].key@ != old_entries[i as int].key@);
                            assert(old_model.get(old_entries[j].key@) == Some(
                                (old_entries[j].count, old_entries[j].started_ms),
                            ));
                        } else {
                            assert(self.entries[j] == old_entries[j + 1]);
                            assert(old_entries[i as int].key@ != old_entries[j + 1].key@);
                            assert(old_model.get(old_entries[j + 1].key@) == Some(
                                (old_entries[j + 1].count, old_entries[j + 1].started_ms),
                            ));
                        }
                    }
                    assert forall|k2: Seq<char>| #[trigger] self.model@.contains_key(k2) implies exists|
                        j: int,
                    | 0 <= j < self.entries.len() && #[trigger] self.entries[j].key@ == k2 by {
                        let j0 = choose|j0: int|
                            0 <= j0 < old_entries.len() && #[trigger] old_entries[j0].key@ == k2;
                        if j0 < i {
                            assert(self.entries[j0] == old_entries[j0]);
                        } else {
                            assert(j0 != i);
                            assert(self.entries[j0 - 1] == old_entries[j0]);
                        }
                    }
                    assert forall|a: int, b: int|
                        0 <= a < b < self.entries.len() implies #[trigger] self.entries[a].key@
                        != #[trigger] self.entries[b].key@ by {
                        let a0 = if a < i {
                            a
                        } else {
                            a + 1
                        };
                        let b0 = if b < i {
                            b
                        } else {
                            b + 1
                        };
                        assert(self.entries[a] == old_entries[a0]);
                        assert(self.entries[b] == old_entries[b0]);
                    }
                }
            },
        }
    }

    /// Writes the record of `key`.
    fn put(&mut self, key: String, rec: (u32, u64))
        requires
            old(self).wf(),
        ensures
            final(self).wf(),
            final(self)@ == old(self)@.insert(key@, rec),
    {
        match self.index_of(&key) {
            Some(i) => {
                let ghost old_entries = self.entries@;
                let ghost old_model = self.model@;
                proof {
                    assert(old_model.get(old_entries[i as int].key@) == Some(
                        (old_entries[i as int].count, old_entries[i as int].started_ms),
                    ));
                    assert(old_model.contains_key(old_entries[i as int].key@));
                }
                self.entries.set(i, Attempt { key, count: rec.0, started_ms: rec.1 });
                self.model = Ghost(old_model.insert(old_entries[i as int].key@, rec));
                proof {
                    assert(self.model@.dom() =~= old_model.dom());
                    assert forall|j: int| 0 <= j < self.entries.len() implies #[trigger] self.model@.get(
                        self.entries[j].key@,
                    ) == Some((self.entries[j].count, self.entries[j].started_ms)) by {
                        if j != i {
                            assert(self.entries[j] == old_entries[j]);
                            if j < i {
                                assert(old_entries[j].key@ != old_entries[i as int].key@);
                            } else {
                                assert(old_entries[i as int].key@ != old_entries[j].key@);
                            }
                            assert(old_model.get(old_entries[j].key@) == Some(
                                (old_entries[j].count, old_entries[j].started_ms),
                            ));
                        }
                    }
                    assert forall|k2: Seq<char>| #[trigger] self.model@.contains_key(k2) implies exists|
                        j: int,
                    | 0 <= j < self.entries.len() && #[trigger] self.entries[j].key@ == k2 by {
                        let j0 = choose|j0: int|
                            0 <= j0 < old_entries.len() && #[trigger] old_entries[j0].key@ == k2;
                        if j0 != i {
                            assert(self.entries[j0] == old_entries[j0]);
                        } else {
                            assert(self.entries[j0].key@ == k2);
                        }
                    }
                    assert forall|a: int, b: int|
                        0 <= a < b < self.entries.len() implies #[trigger] self.entries[a].key@
                        != #[trigger] self.entries[b].key@ by {
                        if a != i {
                            assert(self.entries[a] == old_entries[a]);
                        }
                        if b != i {
                            assert(self.entries[b] == old_entries[b]);
                        }
                    }
                }
            },
            None => {
                let ghost old_entries = self.entries@;
                let ghost old_model = self.model@;
                let ghost k = key@;
                self.entries.push(Attempt { key, count: rec.0, started_ms: rec.1 });
                self.model = Ghost(old_model.insert(k, rec));
                proof {
                    assert forall|j: int| 0 <= j < self.entries.len() implies #[trigger] self.model@.get(
                        self.entries[j].key@,
                    ) == Some((self.entries[j].count, self.entries[j].started_ms)) by {
                        if j < old_entries.len() {
                            assert(self.entries[j] == old_entries[j]);
                            assert(old_model.get(old_entries[j].key@) == Some(
                                (old_entries[j].count, old_entries[j].started_ms),
                            ));
                            assert(old_model.contains_key(old_entries[j].key@));
                        }
                    }
                    assert forall|k2: Seq<char>| #[trigger] self.model@.contains_key(k2) implies exists|
                        j: int,
                    | 0 <= j < self.entries.len() && #[trigger] self.entries[j].key@ == k2 by {
                        if k2 == k {
                            assert(self.entries[old_entries.len() as int].key@ == k2);
                        } else {
                            let j0 = choose|j0: int|
                                0 <= j0 < old_entries.len() && #[trigger] old_entries[j0].key@ == k2;
                            assert(self.entries[j0] == old_entries[j0]);
                        }
                    }
                    assert forall|a: int, b: int|
                        0 <= a < b < self.entries.len() implies #[trigger] self.entries[a].key@
                        != #[trigger] self.entries[b].key@ by {
                        assert(self.entries[a] == old_entries[a]);
                        if b < old_entries.len() {
                            assert(self.entries[b] == old_entries[b]);
                        } else {
                            assert(old_model.get(old_entries[a].key@) == Some(
                                (old_entries[a].count, old_entries[a].started_ms),
                            ));
                            assert(old_model.contains_key(old_entries[a].key@));
                        }
                    }
                }
            },
        }
    }

    /// Drops the stale records when more than `limit` keys are held.
    pub fn prune_if_over(&mut self, limit: usize, now: u64, window_ms: u64)
        requires
            old(self).wf(),
        ensures
            final(self).wf(),
            final(self)@ == pruned(old(self)@, limit as nat, now, window_ms),
    {
        if self.entries.len() <= limit {
            return;
        }
        let ghost old_model = self.model@;
        let ghost old_entries = self.entries@;
        let ghost target = live_part(old_model, now, window_ms);
        proof {
            lemma_live_part(old_model, now, window_ms);
        }
        let mut kept: Vec<Attempt> = Vec::new();
        let ghost mut m: Map<Seq<char>, (u32, u64)> = Map::empty();
        let mut i: usize = 0;
        while i < self.entries.len()
            invariant
                self.entries@ == old_entries,
                self.model@ == old_model,
                old(self).wf(),
                old(self).entries@ == old_entries,
                old(self).model@ == old_model,
                target == live_part(old_model, now, window_ms),
                i <= old_entries.len(),
                m.dom().finite(),
                m.len() == kept.len(),
                forall|a: int, b: int|
                    0 <= a < b < kept.len() ==> #[trigger] kept[a].key@ != #[trigger] kept[b].key@,
                forall|j: int|
                    0 <= j < kept.len() ==> #[trigger] m.get(kept[j].key@) == Some(
                        (kept[j].count, kept[j].started_ms),
                    ),
                forall|k: Seq<char>|
                    #[trigger] m.contains_key(k) ==> exists|j: int|
                        0 <= j < kept.len() && #[trigger] kept[j].key@ == k,
                forall|k: Seq<char>|
                    #[trigger] m.contains_key(k) <==> (exists|j: int|
                        0 <= j < i && #[trigger] old_entries[j].key@ == k) && target.contains_key(k),
                forall|k: Seq<char>|
                    #[trigger] m.contains_key(k) ==> old_model.contains_key(k) && m[k]
                        == old_model[k],
            decreases old_entries.len() - i,
        {
            let e = &self.entries[i];
            let el = if now >= e.started_ms {
                now - e.started_ms
            } else {
                0
            };
            proof {
                assert(old_model.get(old_entries[i as int].key@) == Some(
                    (old_entries[i as int].count, old_entries[i as int].started_ms),
                ));
            }
            let ghost ki = old_entries[i as int].key@;
            if el <= window_ms {
                let ne = Attempt { key: e.key.clone(), count: e.count, started_ms: e.started_ms };
                proof {
                    assert(!m.contains_key(ki)) by {
                        if m.contains_key(ki) {
                            let j = choose|j: int| 0 <= j < i && #[trigger] old_entries[j].key@ == ki;
                            assert(old_entries[j].key@ != old_entries[i as int].key@);
                        }
                    }
                    assert(old_model.contains_key(ki));
                    assert(!is_stale(old_model[ki], now, window_ms));
                    lemma_live_part(old_model, now, window_ms);
                    assert(target.contains_key(ki));
                }
                let ghost kept_before = kept@;
                kept.push(ne);
                proof {
                    let m_before = m;
                    m = m.insert(ki, (old_entries[i as int].count, old_entries[i as int].started_ms));
                    assert forall|j: int| 0 <= j < kept.len() implies #[trigger] m.get(kept[j].key@)
                        == Some((kept[j].count, kept[j].started_ms)) by {
                        if j < kept_before.len() {
                            assert(kept[j] == kept_before[j]);
                            assert(m_before.get(kept_before[j].key@) == Some(
                                (kept_before[j].count, kept_before[j].started_ms),
                            ));
                        }
                    }
                    assert forall|a: int, b: int|
                        0 <= a < b < kept.len() implies #[trigger] kept[a].key@
                        != #[trigger] kept[b].key@ by {
                        assert(kept[a] == kept_before[a]);
                        if b < kept_before.len() {
                            assert(kept[b] == kept_before[b]);
                        } else {
                            assert(m_before.get(kept_before[a].key@) == Some(
                                (kept_before[a].count, kept_before[a].started_ms),
                            ));
                        }
                    }
                    assert forall|k: Seq<char>| #[trigger] m.contains_key(k) implies exists|j: int|
                        0 <= j < kept.len() && #[trigger] kept[j].key@ == k by {
                        if k == ki {
                            assert(kept[kept_before.len() as int].key@ == k);
                        } else {
                            let j0 = choose|j0: int|
                                0 <= j0 < kept_before.len() && #[trigger] kept_before[j0].key@ == k;
                            assert(kept[j0] == kept_before[j0]);
                        }
                    }
                    assert forall|k: Seq<char>| #[trigger] m.contains_key(k) <==> (exists|j: int|
                        0 <= j < i + 1 && #[trigger] old_entries[j].key@ == k) && target.contains_key(
                        k,
                    ) by {
                        if k == ki {
                            assert(old_entries[i as int].key@ == k);
                        }
                        if (exists|j: int| 0 <= j < i + 1 && #[trigger] old_entries[j].key@ == k)
                            && k != ki {
                            let j = choose|j: int| 0 <= j < i + 1 && #[trigger] old_entries[j].key@ == k;
                            assert(j != i);
                        }
                    }
                }
            } else {
                proof {
                    assert(old_model.contains_key(ki));
                    assert(is_stale(old_model[ki], now, window_ms));
                    assert(!target.contains_key(ki));
                    assert forall|k: Seq<char>| #[trigger] m.contains_key(k) <==> (exists|j: int|
                        0 <= j < i + 1 && #[trigger] old_entries[j].key@ == k) && target.contains_key(
                        k,
                    ) by {
                        if (exists|j: int| 0 <= j < i + 1 && #[trigger] old_entries[j].key@ == k)
                            && k != ki {
                            let j = choose|j: int| 0 <= j < i + 1 && #[trigger] old_entries[j].key@ == k;
                            assert(j != i);
                        }
                    }
                }
            }
            i = i + 1;
        }
        proof {
            assert forall|k: Seq<char>| #[trigger] target.contains_key(k) implies m.contains_key(k) by {
                assert(old_model.contains_key(k));
                let j = choose|j: int| 0 <= j < old_entries.len() && #[trigger] old_entries[j].key@ == k;
                assert(old_entries[j].key@ == k);
            }
            assert(m =~= target);
            assert(target == pruned(old_model, limit as nat, now, window_ms));
        }
        self.entries = kept;
        self.model = Ghost(m);
    }

    /// Counts one request for `key` at `now`; returns the new count and
    /// whether a stale window was restarted.
    pub fn hit(&mut self, key: &str, now: u64, window_ms: u64) -> (r: (u32, bool))
        requires
            old(self).wf(),
        ensures
            final(self).wf(),
            final(self)@ == old(self)@.insert(
                key@,
                hit_record(old(self)@.get(key@), now, window_ms),
            ),
            r.0 == hit_record(old(self)@.get(key@), now, window_ms).0,
            r.1 == hit_restarts(old(self)@.get(key@), now, window_ms),
    {
        let prior = self.get(key);
        let (rec, restarted) = match prior {
            None => ((1u32, now), false),
            Some((count, started)) => {
                let el = if now >= started {
                    now - started
                } else {
                    0
                };
                if el > window_ms {
                    ((1u32, now), true)
                } else {
                    let c = if count == u32::MAX {
                        count
                    } else {
                        count + 1
                    };
                    ((c, started), false)
                }
            },
        };
        self.put(key.to_owned(), rec);
        (rec.0, restarted)
    }
}

/// The outcome of one request against a limit of `max` requests per
/// window, given the key's record after the clean-up: refused when the
/// window did not restart and the new count exceeds `max`.
pub open spec fn admits(prior: Option<(u32, u64)>, now: u64, window_ms: u64, max: u32) -> bool {
    hit_restarts(prior, now, window_ms) || hit_record(prior, now, window_ms).0 <= max
}

/// The table after one throttled request for `key`.
pub open spec fn after_request(
    m: Map<Seq<char>, (u32, u64)>,
    key: Seq<char>,
    limit: nat,
    now: u64,
    window_ms: u64,
) -> Map<Seq<char>, (u32, u64)> {
    let p = pruned(m, limit, now, window_ms);
    p.insert(key, hit_record(p.get(key), now, window_ms))
}

/// Whether one throttled request for `key` is admitted.
pub open spec fn request_admitted(
    m: Map<Seq<char>, (u32, u64)>,
    key: Seq<char>,
    limit: nat,
    now: u64,
    window_ms: u64,
    max: u32,
) -> bool {
    admits(pruned(m, limit, now, window_ms).get(key), now, window_ms, max)
}

/// Cleans up when more than `limit` keys are held, counts the request
/// and judges it against `max` requests per `window_ms`.
pub fn throttle(
    table: &mut AttemptTable,
    key: &str,
    max: u32,
    window_ms: u64,
    limit: usize,
    now: u64,
) -> (r: Result<(), HttpStatus>)
    requires
        old(table).wf(),
    ensures
        final(table).wf(),
        final(table)@ == after_request(old(table)@, key@, limit as nat, now, window_ms),
        r is Ok <==> request_admitted(old(table)@, key@, limit as nat, now, window_ms, max),
        r matches Err(e) ==> e == HttpStatus::TooManyRequests,
{
    table.prune_if_over(limit, now, window_ms);
    let (count, restarted) = table.hit(key, now, window_ms);
    if restarted || count <= max {
        Ok(())
    } else {
        Err(HttpStatus::TooManyRequests)
    }
}

/// The table after a run of throttled calls, each for its own key at its
/// own time.
pub open spec fn after_calls(
    m: Map<Seq<char>, (u32, u64)>,
    calls: Seq<(Seq<char>, u64)>,
    limit: nat,
    window_ms: u64,
) -> Map<Seq<char>, (u32, u64)>
    decreases calls.len(),
{
    if calls.len() == 0 {
        m
    } else {
        after_request(
            after_calls(m, calls.drop_last(), limit, window_ms),
            calls.last().0,
            limit,
            calls.last().1,
            window_ms,
        )
    }
}

/// How many of `calls` are for `key`.
pub open spec fn calls_for(calls: Seq<(Seq<char>, u64)>, key: Seq<char>) -> nat
    decreases calls.len(),
{
    if calls.len() == 0 {
        0
    } else {
        calls_for(calls.drop_last(), key) + if calls.last().0 == key {
            1nat
        } else {
            0nat
        }
    }
}

proof fn lemma_calls_for_len(calls: Seq<(Seq<char>, u64)>, key: Seq<char>)
    ensures
        calls_for(calls, key) <= calls.len(),
    decreases calls.len(),
{
    if calls.len() > 0 {
        lemma_calls_for_len(calls.drop_last(), key);
    }
}

/// Clean-up keeps a record whose window is still running, and never adds
/// one.
pub proof fn lemma_pruned_get(
    m: Map<Seq<char>, (u32, u64)>,
    key: Seq<char>,
    limit: nat,
    now: u64,
    window_ms: u64,
)
    ensures
        m.get(key) is None ==> pruned(m, limit, now, window_ms).get(key) is None,
        m.get(key) matches Some(r) && !is_stale(r, now, window_ms) ==> pruned(
            m,
            limit,
            now,
            window_ms,
        ).get(key) == m.get(key),
        m.get(key) matches Some(r) && is_stale(r, now, window_ms) ==> (pruned(
            m,
            limit,
            now,
            window_ms,
        ).get(key) is None || pruned(m, limit, now, window_ms).get(key) == m.get(key)),
{
    lemma_live_part(m, now, window_ms);
}

/// A window counts every request made in it. Take a run of calls at
/// non-decreasing times, all within `window_ms` of the first, the first of
/// them for `key`, any others for other keys in between; before the run
/// `key` has no record or one whose window is over. Then the record of
/// `key` afterwards is (its number of calls, the first time), and each of
/// its calls is admitted exactly when it is among the first `max` of them
/// (the first call also when it restarted a stale window that the
/// clean-up had kept).
pub proof fn law_window_counts_every_request(
    m: Map<Seq<char>, (u32, u64)>,
    key: Seq<char>,
    limit: nat,
    calls: Seq<(Seq<char>, u64)>,
    window_ms: u64,
    max: u32,
)
    requires
        0 < calls.len() <= u32::MAX,
        calls[0].0 == key,
        match m.get(key) {
            None => true,
            Some(r) => is_stale(r, calls[0].1, window_ms),
        },
        forall|i: int, j: int| 0 <= i <= j < calls.len() ==> calls[i].1 <= calls[j].1,
        calls.last().1 - calls[0].1 <= window_ms,
    ensures
        after_calls(m, calls, limit, window_ms).get(key) == Some(
            (calls_for(calls, key) as u32, calls[0].1),
        ),
        forall|i: int|
            0 <= i < calls.len() && calls[i].0 == key ==> (request_admitted(
                #[trigger] after_calls(m, calls.take(i), limit, window_ms),
                key,
                limit,
                calls[i].1,
                window_ms,
                max,
            ) <==> (calls_for(calls.take(i), key) + 1 <= max || (i == 0 && hit_restarts(
                pruned(m, limit, calls[0].1, window_ms).get(key),
                calls[0].1,
                window_ms,
            )))),
    decreases calls.len(),
{
    let n = calls.len() as int;
    let prev = calls.drop_last();
    assert(calls.take(n - 1) == prev);
    let mp = after_calls(m, prev, limit, window_ms);
    let (k, t) = calls.last();
    let t0 = calls[0].1;
    lemma_pruned_get(mp, key, limit, t, window_ms);
    if n == 1 {
        assert(prev.len() == 0);
        assert(mp == m);
        assert(calls.take(0).len() == 0);
        assert(calls_for(calls.take(0), key) == 0);
        assert(calls_for(prev, key) == 0);
    } else {
        law_window_counts_every_request(m, key, limit, prev, window_ms, max);
        lemma_calls_for_len(prev, key);
        assert(prev.last() == calls[n - 2]);
        assert(prev[0] == calls[0]);
        assert(mp.get(key) == Some((calls_for(prev, key) as u32, t0)));
        assert(!is_stale((calls_for(prev, key) as u32, t0), t, window_ms));
        if k != key {
            assert(after_request(mp, k, limit, t, window_ms).get(key) == pruned(mp, limit, t, window_ms).get(key));
        }
    }
    assert forall|i: int|
        0 <= i < calls.len() && calls[i].0 == key implies (request_admitted(
        #[trigger] after_calls(m, calls.take(i), limit, window_ms),
        key,
        limit,
        calls[i].1,
        window_ms,
        max,
    ) <==> (calls_for(calls.take(i), key) + 1 <= max || (i == 0 && hit_restarts(
        pruned(m, limit, calls[0].1, window_ms).get(key),
        calls[0].1,
        window_ms,
    )))) by {
        if i < n - 1 {
            assert(calls.take(i) == prev.take(i));
            assert(prev[i] == calls[i]);
        } else {
            assert(calls.take(i) == prev);
        }
    }
}

/// Once the window is over, a request is admitted again (for any limit of
/// at least one request) and opens a new window holding just itself.
pub proof fn law_window_restarts(
    m: Map<Seq<char>, (u32, u64)>,
    key: Seq<char>,
    limit: nat,
    now: u64,
    window_ms: u64,
    max: u32,
)
    requires
        max >= 1,
        match m.get(key) {
            None => true,
            Some(r) => is_stale(r, now, window_ms),
        },
    ensures
        request_admitted(m, key, limit, now, window_ms, max),
        after_request(m, key, limit, now, window_ms).get(key) == Some((1u32, now)),
{
    lemma_live_part(m, now, window_ms);
}

/// A request touches no other key's record, beyond the clean-up.
pub proof fn law_request_keeps_other_keys(
    m: Map<Seq<char>, (u32, u64)>,
    key: Seq<char>,
    other: Seq<char>,
    limit: nat,
    now: u64,
    window_ms: u64,
)
    requires
        other != key,
    ensures
        after_request(m, key, limit, now, window_ms).get(other) == pruned(
            m,
            limit,
            now,
            window_ms,
        ).get(other),
{
}

/// Table size above which stale records are dropped before counting an
/// endpoint request.
pub const ENDPOINT_PRUNE_LIMIT: usize = 3000;

/// Per-endpoint rate limiting: at most `max_requests` per
/// `window_secs` seconds for `key`.
pub fn check_rate_limit(
    rate_limits: &mut AttemptTable,
    key: &str,
    max_requests: u32,
    window_secs: u64,
    now: u64,
) -> (r: Result<(), HttpStatus>)
    requires
        old(rate_limits).wf(),
    ensures
        final(rate_limits).wf(),
        final(rate_limits)@ == after_request(
            old(rate_limits)@,
            key@,
            ENDPOINT_PRUNE_LIMIT as nat,
            now,
            window_ms_of(window_secs),
        ),
        r is Ok <==> request_admitted(
            old(rate_limits)@,
            key@,
            ENDPOINT_PRUNE_LIMIT as nat,
            now,
            window_ms_of(window_secs),
            max_requests,
        ),
        r matches Err(e) ==> e == HttpStatus::TooManyRequests,
{
    let w = window_ms(window_secs);
    throttle(rate_limits, key, max_requests, w, ENDPOINT_PRUNE_LIMIT, now)
}

/// A window of `secs` seconds in milliseconds (capped at `u64::MAX`,
/// beyond which no elapsed time can exceed it anyway).
pub open spec fn window_ms_of(secs: u64) -> u64 {
    if secs * 1000 > u64::MAX {
        u64::MAX
    } else {
        (secs * 1000) as u64
    }
}

pub fn window_ms(secs: u64) -> (r: u64)
    ensures
        r == window_ms_of(secs),
{
    if secs > u64::MAX / 1000 {
        u64::MAX
    } else {
        secs * 1000
    }
}

} // verus!

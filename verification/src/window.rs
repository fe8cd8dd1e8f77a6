//! The fixed-window rate-limit state: a per-identity counter with a
//! time-to-live, as the external counter store keeps it.
//!
//! The store grants one integer per caller identity, with two
//! operations: an atomic increment-by-one that returns the new value,
//! and a set-expiry that re-arms the key's time-to-live. A count is only
//! meaningful for the duration of its time-to-live; once that elapses
//! the key is treated as absent, which logically resets the count to
//! zero. The limiter re-arms the expiry on *every* request — a sliding
//! reset tied to the most recent request — so a caller whose requests
//! are spaced closer than one window never lets the counter expire.
//!
//! [`WindowStore`] is the in-process model of that store, verified
//! against the same semantics; the networked store is driven by the
//! runtime shell, which hands the observed count to the gateway's
//! decision functions.

use vstd::prelude::*;
use vstd::string::*;

verus! {

/// One identity's state in the counter store: the request count of the
/// current window and the time at which it lapses.
#[derive(Clone, Copy, Debug)]
pub struct WindowEntry {
    pub count: u64,
    pub expires_at: u64,
}

/// The entry as the store reads it at time `now`: an entry whose expiry
/// has passed is absent.
pub open spec fn live_entry(prev: Option<WindowEntry>, now: u64) -> Option<WindowEntry> {
    match prev {
        Some(e) => if e.expires_at > now {
            Some(e)
        } else {
            None
        },
        None => None,
    }
}

/// The post-increment count for one request at time `now`: one more
/// than the live count, starting from zero when the key is absent or
/// lapsed, and saturating at the counter's top.
pub open spec fn bumped_count(prev: Option<WindowEntry>, now: u64) -> u64 {
    match live_entry(prev, now) {
        Some(e) => if e.count == u64::MAX {
            u64::MAX
        } else {
            (e.count + 1) as u64
        },
        None => 1,
    }
}

/// The expiry after a refresh at time `now`: one full window from now,
/// saturating at the clock's top. The window is reset, not extended
/// cumulatively.
pub open spec fn refreshed_expiry(now: u64, window_len: u64) -> u64 {
    if now + window_len > u64::MAX {
        u64::MAX
    } else {
        (now + window_len) as u64
    }
}

/// The entry after the store's increment alone: a lapsed or absent key
/// is created afresh with count one and no expiry; a live key keeps its
/// expiry.
pub open spec fn incremented(prev: Option<WindowEntry>, now: u64) -> WindowEntry {
    WindowEntry {
        count: bumped_count(prev, now),
        expires_at: match live_entry(prev, now) {
            Some(e) => e.expires_at,
            None => u64::MAX,
        },
    }
}

/// One identity's state after one full limiter transaction at time `now`:
/// increment, then re-arm the expiry to one window from now.
pub open spec fn window_step(prev: Option<WindowEntry>, now: u64, window_len: u64) -> WindowEntry {
    WindowEntry { count: bumped_count(prev, now), expires_at: refreshed_expiry(now, window_len) }
}

/// Whether the association list holds `key`.
pub open spec fn has_key(s: Seq<(String, WindowEntry)>, key: Seq<char>) -> bool {
    exists|i: int| 0 <= i < s.len() && s[i].0@ == key
}

/// The entry stored under `key`; meaningful only when the keys of `s`
/// are distinct and `key` is present.
pub open spec fn entry_of(s: Seq<(String, WindowEntry)>, key: Seq<char>) -> WindowEntry
    recommends
        has_key(s, key),
{
    s[choose|i: int| 0 <= i < s.len() && s[i].0@ == key].1
}

/// The entry stored under `key`, if any.
pub open spec fn stored_entry(s: Seq<(String, WindowEntry)>, key: Seq<char>) -> Option<
    WindowEntry,
> {
    if has_key(s, key) {
        Some(entry_of(s, key))
    } else {
        None
    }
}

/// Pairwise-distinct keys.
pub open spec fn distinct_keys(s: Seq<(String, WindowEntry)>) -> bool {
    forall|i: int, j: int| 0 <= i < j < s.len() ==> s[i].0@ != s[j].0@
}

proof fn lemma_entry_at(s: Seq<(String, WindowEntry)>, i: int, key: Seq<char>)
    requires
        distinct_keys(s),
        0 <= i < s.len(),
        s[i].0@ == key,
    ensures
        has_key(s, key),
        entry_of(s, key) == s[i].1,
        stored_entry(s, key) == Some(s[i].1),
{
    assert(has_key(s, key));
    let j = choose|j: int| 0 <= j < s.len() && s[j].0@ == key;
    if j < i {
        assert(s[j].0@ != s[i].0@);
    } else if i < j {
        assert(s[i].0@ != s[j].0@);
    }
}

/// The in-process counter store: one [`WindowEntry`] per caller
/// identity.
pub struct WindowStore {
    entries: Vec<(String, WindowEntry)>,
}

impl WindowStore {
    /// Each identity holds at most one entry; every operation preserves
    /// this.
    pub closed spec fn wf(self) -> bool {
        distinct_keys(self.entries@)
    }

    /// The stored associations.
    pub closed spec fn contents(&self) -> Seq<(String, WindowEntry)> {
        self.entries@
    }

    /// An empty store.
    pub fn new() -> (s: Self)
        ensures
            s.wf(),
            s.contents().len() == 0,
    {
        WindowStore { entries: Vec::new() }
    }

    /// The index holding `key`, if any.
    fn find_index(&self, key: &String) -> (r: Option<usize>)
        ensures
            match r {
                Some(i) => i < self.contents().len() && self.contents()[i as int].0@ == key@,
                None => !has_key(self.contents(), key@),
            },
    {
        let mut i: usize = 0;
        while i < self.entries.len()
            invariant
                i <= self.entries@.len(),
                forall|j: int| 0 <= j < i ==> self.entries@[j].0@ != key@,
            decreases self.entries@.len() - i,
        {
            let e = &self.entries[i];
            if e.0 == *key {
                return Some(i);
            }
            i = i + 1;
        }
        None
    }

    /// The store's atomic increment: creates a lapsed or absent key
    /// afresh with count one and no expiry, bumps a live one, and
    /// returns the new count. Every other key is untouched.
    pub fn incr(&mut self, identity: &String, now: u64) -> (c: u64)
        requires
            old(self).wf(),
        ensures
            final(self).wf(),
            c == bumped_count(stored_entry(old(self).contents(), identity@), now),
            stored_entry(final(self).contents(), identity@) == Some(
                incremented(stored_entry(old(self).contents(), identity@), now),
            ),
            forall|k2: Seq<char>|
                k2 != identity@ ==> stored_entry(final(self).contents(), k2) == stored_entry(
                    old(self).contents(),
                    k2,
                ),
    {
        let ghost s0 = self.entries@;
        let found = self.find_index(identity);
        match found {
            Some(i) => {
                proof {
                    lemma_entry_at(s0, i as int, identity@);
                }
                let e = self.entries[i].1;
                let live = e.expires_at > now;
                let e2 = if live {
                    WindowEntry {
                        count: if e.count == u64::MAX {
                            u64::MAX
                        } else {
                            e.count + 1
                        },
                        expires_at: e.expires_at,
                    }
                } else {
                    WindowEntry { count: 1, expires_at: u64::MAX }
                };
                let name = self.entries[i].0.clone();
                self.entries[i] = (name, e2);
                proof {
                    assert(self.entries@ =~= s0.update(i as int, (s0[i as int].0, e2)));
                    assert(distinct_keys(self.entries@));
                    lemma_entry_at(self.entries@, i as int, identity@);
                    assert forall|k2: Seq<char>| k2 != identity@ implies stored_entry(
                        self.entries@,
                        k2,
                    ) == stored_entry(s0, k2) by {
                        lemma_stored_entry_same_names(s0, self.entries@, k2);
                    }
                }
                e2.count
            },
            None => {
                let e2 = WindowEntry { count: 1, expires_at: u64::MAX };
                self.entries.push((identity.clone(), e2));
                proof {
                    let s1 = self.entries@;
                    assert(s1 =~= s0.push((s1.last().0, e2)));
                    assert(s1.last().0@ == identity@);
                    assert forall|i: int, j: int| 0 <= i < j < s1.len() implies s1[i].0@
                        != s1[j].0@ by {
                        if j == s1.len() - 1 {
                            assert(s1[i] == s0[i]);
                        }
                    }
                    lemma_entry_at(s1, s1.len() - 1, identity@);
                    assert forall|k2: Seq<char>| k2 != identity@ implies stored_entry(s1, k2)
                        == stored_entry(s0, k2) by {
                        lemma_stored_entry_push_other(s0, s1, k2);
                    }
                }
                1
            },
        }
    }

    /// The store's set-expiry: re-arms the key's time-to-live to `ttl`
    /// from `now`, saturating at the clock's top; a missing key is left
    /// missing. Every other key is untouched.
    pub fn expire(&mut self, identity: &String, ttl: u64, now: u64)
        requires
            old(self).wf(),
        ensures
            final(self).wf(),
            match stored_entry(old(self).contents(), identity@) {
                Some(e) => stored_entry(final(self).contents(), identity@) == Some(
                    WindowEntry { count: e.count, expires_at: refreshed_expiry(now, ttl) },
                ),
                None => stored_entry(final(self).contents(), identity@) is None,
            },
            forall|k2: Seq<char>|
                k2 != identity@ ==> stored_entry(final(self).contents(), k2) == stored_entry(
                    old(self).contents(),
                    k2,
                ),
    {
        let ghost s0 = self.entries@;
        let found = self.find_index(identity);
        match found {
            Some(i) => {
                proof {
                    lemma_entry_at(s0, i as int, identity@);
                }
                let e = self.entries[i].1;
                let expiry = if now > u64::MAX - ttl {
                    u64::MAX
                } else {
                    now + ttl
                };
                let e2 = WindowEntry { count: e.count, expires_at: expiry };
                let name = self.entries[i].0.clone();
                self.entries[i] = (name, e2);
                proof {
                    assert(self.entries@ =~= s0.update(i as int, (s0[i as int].0, e2)));
                    assert(distinct_keys(self.entries@));
                    lemma_entry_at(self.entries@, i as int, identity@);
                    assert forall|k2: Seq<char>| k2 != identity@ implies stored_entry(
                        self.entries@,
                        k2,
                    ) == stored_entry(s0, k2) by {
                        lemma_stored_entry_same_names(s0, self.entries@, k2);
                    }
                }
            },
            None => {},
        }
    }
}

/// Two association lists with distinct keys and the same names in the
/// same places store the same entry under every name whose slots are
/// unchanged — used to carry every untouched key across an in-place
/// update.
proof fn lemma_stored_entry_same_names(
    s0: Seq<(String, WindowEntry)>,
    s1: Seq<(String, WindowEntry)>,
    k2: Seq<char>,
)
    requires
        distinct_keys(s0),
        s0.len() == s1.len(),
        forall|i: int| 0 <= i < s0.len() ==> s0[i].0@ == s1[i].0@,
        forall|i: int| 0 <= i < s0.len() && s0[i].0@ == k2 ==> s0[i] == s1[i],
    ensures
        stored_entry(s1, k2) == stored_entry(s0, k2),
{
    assert(distinct_keys(s1));
    if has_key(s0, k2) {
        let i = choose|i: int| 0 <= i < s0.len() && s0[i].0@ == k2;
        assert(s1[i].0@ == k2);
        lemma_entry_at(s0, i, k2);
        lemma_entry_at(s1, i, k2);
        assert(s0[i] == s1[i]);
    } else {
        if has_key(s1, k2) {
            let i = choose|i: int| 0 <= i < s1.len() && s1[i].0@ == k2;
            assert(s0[i].0@ == k2);
        }
    }
}

/// Appending a fresh key stores nothing new under any other key.
proof fn lemma_stored_entry_push_other(
    s0: Seq<(String, WindowEntry)>,
    s1: Seq<(String, WindowEntry)>,
    k2: Seq<char>,
)
    requires
        distinct_keys(s0),
        distinct_keys(s1),
        s1.len() == s0.len() + 1,
        forall|i: int| 0 <= i < s0.len() ==> s0[i] == s1[i],
        s1.last().0@ != k2,
    ensures
        stored_entry(s1, k2) == stored_entry(s0, k2),
{
    if has_key(s0, k2) {
        let i = choose|i: int| 0 <= i < s0.len() && s0[i].0@ == k2;
        assert(s1[i].0@ == k2);
        lemma_entry_at(s0, i, k2);
        lemma_entry_at(s1, i, k2);
        assert(s0[i] == s1[i]);
    } else {
        if has_key(s1, k2) {
            let i = choose|i: int| 0 <= i < s1.len() && s1[i].0@ == k2;
            assert(i < s0.len());
            assert(s0[i].0@ == k2);
        }
    }
}

/// The admission policy of the rate limiter: `limit` requests per window of
/// `window_len` time units, both fixed at construction.
pub struct RateLimitGate {
    pub limit: u64,
    pub window_len: u64,
}

impl RateLimitGate {
    pub fn new(limit: u64, window_len: u64) -> (g: Self)
        ensures
            g.limit == limit,
            g.window_len == window_len,
    {
        RateLimitGate { limit, window_len }
    }

    /// One admission decision against the in-process store: increment
    /// the identity's counter, re-arm its expiry to one full window —
    /// on every request, not only the first of a window — and grant
    /// admission while the post-increment count is within the limit.
    pub fn grant(&self, store: &mut WindowStore, identity: &String, now: u64) -> (b: bool)
        requires
            old(store).wf(),
        ensures
            final(store).wf(),
            stored_entry(final(store).contents(), identity@) == Some(
                window_step(
                    stored_entry(old(store).contents(), identity@),
                    now,
                    self.window_len,
                ),
            ),
            b == (window_step(
                stored_entry(old(store).contents(), identity@),
                now,
                self.window_len,
            ).count <= self.limit),
            forall|k2: Seq<char>|
                k2 != identity@ ==> stored_entry(final(store).contents(), k2) == stored_entry(
                    old(store).contents(),
                    k2,
                ),
    {
        let c = store.incr(identity, now);
        store.expire(identity, self.window_len, now);
        c <= self.limit
    }
}


/// Grants or denies a whole run of requests from one identity, one
/// call of [`RateLimitGate::grant`] per entry of `times`: the `i`-th
/// answer is exactly the trace model's verdict for request `i`, so the
/// run as a whole realizes the boundary and refresh laws below.
pub fn grant_series(
    limiter: &RateLimitGate,
    store: &mut WindowStore,
    identity: &String,
    times: &Vec<u64>,
) -> (grants: Vec<bool>)
    requires
        old(store).wf(),
        !has_key(old(store).contents(), identity@),
    ensures
        final(store).wf(),
        grants@.len() == times@.len(),
        forall|i: int|
            0 <= i < times@.len() ==> grants@[i] == granted_at(
                times@,
                i,
                limiter.window_len,
                limiter.limit,
            ),
{
    let mut grants: Vec<bool> = Vec::new();
    let mut j: usize = 0;
    proof {
        assert(times@.take(0) =~= Seq::<u64>::empty());
    }
    while j < times.len()
        invariant
            j <= times@.len(),
            store.wf(),
            grants@.len() == j,
            stored_entry(store.contents(), identity@) == run_entry(
                times@.take(j as int),
                limiter.window_len,
            ),
            forall|i: int|
                0 <= i < j ==> grants@[i] == granted_at(
                    times@,
                    i,
                    limiter.window_len,
                    limiter.limit,
                ),
        decreases times@.len() - j,
    {
        let ghost prefix = times@.take(j as int);
        let b = limiter.grant(store, identity, times[j]);
        grants.push(b);
        proof {
            let next = times@.take(j as int + 1);
            assert(next.drop_last() =~= prefix);
            assert(next.last() == times@[j as int]);
            assert(run_entry(next, limiter.window_len) == Some(
                window_step(run_entry(prefix, limiter.window_len), times@[j as int], limiter.window_len),
            ));
        }
        j = j + 1;
    }
    grants
}

/// One identity's stored state after a run of limiter transactions at the
/// given times, starting from no stored entry.
pub open spec fn run_entry(times: Seq<u64>, window_len: u64) -> Option<WindowEntry>
    decreases times.len(),
{
    if times.len() == 0 {
        None
    } else {
        Some(window_step(run_entry(times.drop_last(), window_len), times.last(), window_len))
    }
}

/// The post-increment count observed by request `i` of the run.
pub open spec fn count_at(times: Seq<u64>, i: int, window_len: u64) -> u64
    recommends
        0 <= i < times.len(),
{
    window_step(run_entry(times.take(i), window_len), times[i], window_len).count
}

/// Whether request `i` of the run is granted under `limit`.
pub open spec fn granted_at(times: Seq<u64>, i: int, window_len: u64, limit: u64) -> bool {
    count_at(times, i, window_len) <= limit
}

/// Request times in nondecreasing order, each later request less than
/// one window after the one before it, and all below the clock's top.
pub open spec fn sustained_times(times: Seq<u64>, window_len: u64) -> bool {
    &&& forall|i: int| 0 <= i < times.len() ==> times[i] < u64::MAX
    &&& forall|i: int|
        #![trigger times[i]]
        0 < i < times.len() ==> times[i - 1] <= times[i] && times[i] < times[i - 1] + window_len
}

/// Under sustained traffic the entry never lapses: the time-to-live is
/// re-armed by every request before it can run out, so after `n`
/// requests the stored count is exactly `n`.
pub proof fn lemma_sustained_counts(times: Seq<u64>, window_len: u64)
    requires
        window_len > 0,
        times.len() <= u64::MAX,
        sustained_times(times, window_len),
    ensures
        times.len() > 0 ==> run_entry(times, window_len) == Some(
            WindowEntry {
                count: times.len() as u64,
                expires_at: refreshed_expiry(times.last(), window_len),
            },
        ),
    decreases times.len(),
{
    if times.len() > 0 {
        let prefix = times.drop_last();
        let now = times.last();
        assert forall|i: int| 0 <= i < prefix.len() implies prefix[i] < u64::MAX by {
            assert(prefix[i] == times[i]);
        }
        assert forall|i: int| #![trigger prefix[i]] 0 < i < prefix.len() implies prefix[i - 1]
            <= prefix[i] && prefix[i] < prefix[i - 1] + window_len by {
            assert(prefix[i] == times[i]);
            assert(prefix[i - 1] == times[i - 1]);
        }
        lemma_sustained_counts(prefix, window_len);
        if prefix.len() > 0 {
            let pe = WindowEntry {
                count: prefix.len() as u64,
                expires_at: refreshed_expiry(prefix.last(), window_len),
            };
            assert(run_entry(prefix, window_len) == Some(pe));
            assert(prefix.last() == times[times.len() - 2]);
            assert(now == times[times.len() - 1]);
            assert(now < prefix.last() + window_len);
            assert(pe.expires_at > now);
            assert(prefix.len() < u64::MAX);
            assert(bumped_count(Some(pe), now) == prefix.len() + 1);
        }
        assert(run_entry(times, window_len) == Some(
            window_step(run_entry(prefix, window_len), now, window_len),
        ));
    }
}

/// Rate-limit boundary: in a sustained run of requests from one
/// identity, request `i` (zero-based) observes count `i + 1`, so the
/// first `limit` requests are granted and every later one is denied —
/// exactly the `(limit + 1)`-th request is the first refusal.
pub proof fn lemma_rate_limit_boundary(times: Seq<u64>, window_len: u64, limit: u64, i: int)
    requires
        window_len > 0,
        times.len() <= u64::MAX,
        sustained_times(times, window_len),
        0 <= i < times.len(),
    ensures
        count_at(times, i, window_len) == i + 1,
        granted_at(times, i, window_len, limit) <==> i + 1 <= limit,
{
    let p1 = times.take(i + 1);
    assert forall|j: int| 0 <= j < p1.len() implies p1[j] < u64::MAX by {
        assert(p1[j] == times[j]);
    }
    assert forall|j: int| #![trigger p1[j]] 0 < j < p1.len() implies p1[j - 1] <= p1[j] && p1[j]
        < p1[j - 1] + window_len by {
        assert(p1[j] == times[j]);
        assert(p1[j - 1] == times[j - 1]);
    }
    lemma_sustained_counts(p1, window_len);
    assert(p1.drop_last() =~= times.take(i));
    assert(p1.last() == times[i]);
    assert(run_entry(p1, window_len) == Some(
        window_step(run_entry(times.take(i), window_len), times[i], window_len),
    ));
}

/// Window refresh: while requests keep arriving less than one window
/// apart, the counter never lapses, and once the limit has been passed
/// every further request keeps being denied for as long as the traffic
/// keeps up.
pub proof fn lemma_denial_persists(times: Seq<u64>, window_len: u64, limit: u64, i: int)
    requires
        window_len > 0,
        times.len() <= u64::MAX,
        sustained_times(times, window_len),
        0 <= i < times.len(),
        limit <= i,
    ensures
        !granted_at(times, i, window_len, limit),
{
    lemma_rate_limit_boundary(times, window_len, limit, i);
}

/// Once traffic stops for at least one full window the counter lapses,
/// and the next request starts a fresh window: it observes count one.
pub proof fn lemma_reset_after_quiet_gap(times: Seq<u64>, window_len: u64, t_next: u64)
    requires
        window_len > 0,
        times.len() > 0,
        times.len() <= u64::MAX,
        sustained_times(times, window_len),
        times.last() + window_len <= t_next,
    ensures
        window_step(run_entry(times, window_len), t_next, window_len).count == 1,
{
    lemma_sustained_counts(times, window_len);
    let e = run_entry(times, window_len)->Some_0;
    assert(e.expires_at == refreshed_expiry(times.last(), window_len));
    assert(e.expires_at <= t_next);
}

/// Counts are per-identity: the frame condition of `grant` leaves every
/// other identity's entry untouched, and an identity with no live entry
/// observes count one on its next request, which is granted whenever
/// the limit is at least one.
pub proof fn lemma_fresh_identity_granted(
    prev: Option<WindowEntry>,
    now: u64,
    window_len: u64,
    limit: u64,
)
    requires
        live_entry(prev, now) is None,
        limit >= 1,
    ensures
        window_step(prev, now, window_len).count == 1,
        window_step(prev, now, window_len).count <= limit,
{
}

} // verus!

//! The round-robin backend selector: an ordered, non-empty set of
//! upstream addresses and a rotation cursor that is advanced once per
//! request.
//!
//! The runtime shell owns one cursor for the life of the process and
//! serializes acquisitions with a hardware-atomic fetch-and-add; each
//! acquisition therefore observes a distinct pre-increment value, and the
//! slot selected for it is that value reduced modulo the size of the
//! upstream set.

use vstd::arithmetic::div_mod::{
    lemma_add_mod_noop_right, lemma_fundamental_div_mod, lemma_mod_add_multiples_vanish,
    lemma_mod_bound,
};
use vstd::prelude::*;

verus! {

/// A fatal configuration error, detected at startup before any listener
/// binds; the process reports it and exits with a non-zero status.
#[derive(Clone, Copy, Debug, PartialEq, Eq, Structural)]
pub enum ConfigError {
    /// The ordered list of upstream addresses was empty.
    EmptyUpstreamSet,
}

/// The slot selected for the pre-increment cursor value `pre` against
/// `k` upstreams.
pub open spec fn slot_of(pre: nat, k: nat) -> nat
    recommends
        k > 0,
{
    pre % k
}

/// The cursor value after one acquisition: the counter wraps at the top
/// of its range rather than grow past it (an accepted non-issue at
/// realistic request volumes).
pub open spec fn bumped(c: nat) -> nat {
    if c == usize::MAX as nat {
        0
    } else {
        c + 1
    }
}

/// The shared rotation counter. Created once at process start with value
/// zero, advanced by exactly one per selection, never reset.
pub struct RotationCursor {
    value: usize,
}

impl RotationCursor {
    /// The current counter value.
    pub closed spec fn count(&self) -> nat {
        self.value as nat
    }

    /// A fresh cursor, as created at process start.
    pub fn new() -> (c: Self)
        ensures
            c.count() == 0,
    {
        RotationCursor { value: 0 }
    }

    /// A cursor resumed at a given value; selection schedules depend
    /// only on the offset the cursor holds when they begin.
    pub fn starting_at(value: usize) -> (c: Self)
        ensures
            c.count() == value,
    {
        RotationCursor { value }
    }

    /// Atomically read the counter and advance it by one, returning the
    /// pre-increment value. No two acquisitions observe the same value
    /// (short of the counter wrapping its whole range).
    pub fn acquire(&mut self) -> (pre: usize)
        ensures
            pre as nat == old(self).count(),
            final(self).count() == bumped(old(self).count()),
    {
        let pre = self.value;
        self.value = if self.value == usize::MAX {
            0
        } else {
            self.value + 1
        };
        pre
    }
}

/// The ordered, non-empty sequence of upstream base addresses. Immutable
/// after construction; shared read-only across all concurrent request
/// handlers.
pub struct UpstreamSet {
    list: Vec<String>,
}

impl UpstreamSet {
    /// Non-emptiness is the type's invariant: a set with no upstreams
    /// cannot be constructed.
    #[verifier::type_invariant]
    pub closed spec fn wf(self) -> bool {
        self.list.len() > 0
    }

    /// The upstream addresses, in rotation order.
    pub closed spec fn servers(&self) -> Seq<String> {
        self.list@
    }

    /// Builds the set, rejecting an empty list: that is a fatal
    /// configuration error, reported at startup rather than at request
    /// time.
    pub fn new(list: Vec<String>) -> (r: Result<UpstreamSet, ConfigError>)
        ensures
            match r {
                Ok(s) => list@.len() > 0 && s.servers() == list@,
                Err(e) => list@.len() == 0 && e == ConfigError::EmptyUpstreamSet,
            },
    {
        if list.len() == 0 {
            Err(ConfigError::EmptyUpstreamSet)
        } else {
            Ok(UpstreamSet { list })
        }
    }

    /// How many upstreams are in rotation; always positive.
    pub fn len(&self) -> (n: usize)
        ensures
            n == self.servers().len(),
            n > 0,
    {
        proof {
            use_type_invariant(self);
        }
        self.list.len()
    }

    /// The address in slot `i`.
    pub fn get(&self, i: usize) -> (s: &String)
        requires
            i < self.servers().len(),
        ensures
            s == self.servers()[i as int],
    {
        &self.list[i]
    }
}

/// The pure selection decision: the slot for a pre-increment cursor
/// value against `k` upstreams. The runtime shell pairs this with its
/// atomic fetch-and-add on the shared counter.
pub fn index_for(pre: usize, k: usize) -> (i: usize)
    requires
        k > 0,
    ensures
        i as nat == slot_of(pre as nat, k as nat),
        i < k,
{
    pre % k
}

/// Acquires the next cursor value and returns the slot it selects.
pub fn next_slot(set: &UpstreamSet, cursor: &mut RotationCursor) -> (i: usize)
    ensures
        i as nat == slot_of(old(cursor).count(), set.servers().len()),
        i < set.servers().len(),
        final(cursor).count() == bumped(old(cursor).count()),
{
    let pre = cursor.acquire();
    index_for(pre, set.len())
}

/// Acquires the next cursor value and returns the upstream it selects.
/// There is no error path: an address is always returned.
pub fn next_upstream<'a>(set: &'a UpstreamSet, cursor: &mut RotationCursor) -> (s: &'a String)
    ensures
        s == set.servers()[slot_of(old(cursor).count(), set.servers().len()) as int],
        final(cursor).count() == bumped(old(cursor).count()),
{
    let i = next_slot(set, cursor);
    set.get(i)
}

/// Performs `n` selections in sequence and returns the chosen slots:
/// the `i`-th selection takes the slot of cursor value `c0 + i`, where
/// `c0` is whatever offset the cursor held before the run began.
pub fn select_sequence(set: &UpstreamSet, cursor: &mut RotationCursor, n: usize) -> (picks: Vec<
    usize,
>)
    requires
        old(cursor).count() + n <= usize::MAX,
    ensures
        picks@.len() == n,
        forall|i: int|
            0 <= i < n ==> picks@[i] as nat == slot_of(
                (old(cursor).count() + i) as nat,
                set.servers().len(),
            ),
        final(cursor).count() == old(cursor).count() + n,
{
    let mut picks: Vec<usize> = Vec::new();
    let mut j: usize = 0;
    while j < n
        invariant
            j <= n,
            old(cursor).count() + n <= usize::MAX,
            cursor.count() == old(cursor).count() + j,
            picks@.len() == j,
            forall|i: int|
                0 <= i < j ==> picks@[i] as nat == slot_of(
                    (old(cursor).count() + i) as nat,
                    set.servers().len(),
                ),
        decreases n - j,
    {
        let i = next_slot(set, cursor);
        picks.push(i);
        j = j + 1;
    }
    picks
}

/// Round-robin fairness: the schedule of selected slots depends only on
/// the offset `c0 % k` that the cursor held at the start — the `i`-th of
/// a run of selections takes slot `(c0 + i) % k` — and it repeats with
/// period `k`, so `n` selections walk the upstream list cyclically:
/// the list repeated and truncated to `n`, starting from that offset.
pub proof fn lemma_round_robin_fairness(c0: nat, i: nat, k: nat)
    requires
        k > 0,
    ensures
        slot_of((c0 + i) as nat, k) == slot_of((slot_of(c0, k) + i) as nat, k),
        slot_of((c0 + i + k) as nat, k) == slot_of((c0 + i) as nat, k),
        slot_of((c0 + i) as nat, k) < k,
{
    lemma_add_mod_noop_right(i as int, c0 as int, k as int);
    assert((i as int + (c0 as int) % (k as int)) % (k as int) == (i as int + c0 as int) % (
    k as int));
    lemma_mod_add_multiples_vanish((c0 + i) as int, k as int);
    lemma_mod_bound((c0 + i) as int, k as int);
}

/// Within any window of fewer than `k` consecutive acquisitions the
/// selected slots are pairwise distinct: each upstream is chosen exactly
/// once per full cycle, with no bias toward any single upstream beyond
/// the rotation order.
pub proof fn lemma_cycle_slots_distinct(c0: nat, d1: nat, d2: nat, k: nat)
    requires
        k > 0,
        d1 < d2,
        d2 - d1 < k,
    ensures
        slot_of((c0 + d1) as nat, k) != slot_of((c0 + d2) as nat, k),
{
    let a = (c0 + d1) as int;
    let b = (c0 + d2) as int;
    let m = k as int;
    lemma_fundamental_div_mod(a, m);
    lemma_fundamental_div_mod(b, m);
    lemma_mod_bound(a, m);
    lemma_mod_bound(b, m);
    if a % m == b % m {
        let x = b / m;
        let y = a / m;
        let q = x - y;
        assert(b - a == m * x - m * y);
        assert(m * x - m * y == m * (x - y)) by (nonlinear_arith);
        assert(b - a == m * q);
        assert(0 < m * q < m);
        assert(q >= 1 ==> m * q >= m) by (nonlinear_arith)
            requires
                m > 0,
        ;
        assert(q <= 0 ==> m * q <= 0) by (nonlinear_arith)
            requires
                m > 0,
        ;
        assert(false);
    }
}

/// No duplicate cursor acquisition: when a run of selections starts
/// from a fresh cursor, the `i`-th acquisition observes pre-increment
/// value `i`, so no two of them share a value, and the selected slots
/// are exactly those values reduced modulo `k` — the multiset
/// `{0, 1, ..., m-1} mod k` — however the selections interleave
/// otherwise.
pub proof fn lemma_no_duplicate_acquisition(acquired: Seq<nat>, k: nat)
    requires
        k > 0,
        forall|i: int| 0 <= i < acquired.len() ==> acquired[i] == i,
    ensures
        forall|i: int, j: int|
            0 <= i < j < acquired.len() ==> acquired[i] != acquired[j],
        acquired.map_values(|v: nat| slot_of(v, k)) =~= Seq::new(
            acquired.len(),
            |i: int| slot_of(i as nat, k),
        ),
        acquired.map_values(|v: nat| slot_of(v, k)).to_multiset() == Seq::new(
            acquired.len(),
            |i: int| slot_of(i as nat, k),
        ).to_multiset(),
{
    assert(acquired.map_values(|v: nat| slot_of(v, k)) =~= Seq::new(
        acquired.len(),
        |i: int| slot_of(i as nat, k),
    ));
}

} // verus!

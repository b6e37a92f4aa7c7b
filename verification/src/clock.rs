//! Logical clocks for ordering the events of the distributed system.
//!
//! A `Clock` holds a Lamport clock, for a total order of events, and a vector
//! clock, one counter per site, for their causal order.

use vstd::prelude::*;
use crate::sitemap::{SiteMap, get_or, pairs_to_map, lemma_prefix_step, lemma_take_all};

verus! {

/// The larger of two integers.
pub open spec fn max_int(a: int, b: int) -> int {
    if a >= b {
        a
    } else {
        b
    }
}

/// The vector clock that results from merging `recv` into `local`: each site that
/// `recv` names gets the larger of its local value (0 where it has none) and the
/// received one; the other sites keep their local value.
pub open spec fn merge_max(local: Map<Seq<char>, i64>, recv: Map<Seq<char>, i64>) -> Map<
    Seq<char>,
    i64,
> {
    Map::new(
        |k: Seq<char>| local.contains_key(k) || recv.contains_key(k),
        |k: Seq<char>|
            if recv.contains_key(k) {
                max_int(get_or(local, k, 0i64) as int, recv[k] as int) as i64
            } else {
                local[k]
            },
    )
}

/// Merging one more received entry into a partial merge.
proof fn lemma_merge_step(
    local: Map<Seq<char>, i64>,
    part: Map<Seq<char>, i64>,
    k: Seq<char>,
    v: i64,
)
    requires
        !part.contains_key(k),
    ensures
        merge_max(local, part.insert(k, v)) == merge_max(local, part).insert(
            k,
            max_int(get_or(merge_max(local, part), k, 0i64) as int, v as int) as i64,
        ),
{
    assert(get_or(merge_max(local, part), k, 0i64) == get_or(local, k, 0i64));
    assert(merge_max(local, part.insert(k, v)) =~= merge_max(local, part).insert(
        k,
        max_int(get_or(merge_max(local, part), k, 0i64) as int, v as int) as i64,
    ));
}

/// Merging never lowers a counter: every site of either clock is in the merge, with a
/// counter at least its local one and at least the received one.
pub proof fn lemma_merge_dominates(local: Map<Seq<char>, i64>, recv: Map<Seq<char>, i64>)
    ensures
        merge_max(local, recv).dom() == local.dom().union(recv.dom()),
        forall|k: Seq<char>| #[trigger]
            local.contains_key(k) ==> merge_max(local, recv)[k] >= local[k],
        forall|k: Seq<char>| #[trigger]
            recv.contains_key(k) ==> merge_max(local, recv)[k] >= recv[k],
{
    assert(merge_max(local, recv).dom() =~= local.dom().union(recv.dom()));
}

/// Merging a clock into itself changes nothing.
pub proof fn lemma_merge_idempotent(m: Map<Seq<char>, i64>)
    ensures
        merge_max(m, m) == m,
{
    assert(merge_max(m, m) =~= m);
}

/// Merging the same received clock twice is the same as merging it once.
pub proof fn lemma_merge_absorbs(local: Map<Seq<char>, i64>, recv: Map<Seq<char>, i64>)
    ensures
        merge_max(merge_max(local, recv), recv) == merge_max(local, recv),
{
    assert(merge_max(merge_max(local, recv), recv) =~= merge_max(local, recv));
}

/// Whether every counter of a vector clock is at least 0.
pub open spec fn nonneg(m: Map<Seq<char>, i64>) -> bool {
    forall|k: Seq<char>| #[trigger] m.contains_key(k) ==> m[k] >= 0
}

/// On clocks whose counters are not negative, the order of two merges does not matter.
pub proof fn lemma_merge_commutes(a: Map<Seq<char>, i64>, b: Map<Seq<char>, i64>)
    requires
        nonneg(a),
        nonneg(b),
    ensures
        merge_max(a, b) == merge_max(b, a),
{
    assert(merge_max(a, b) =~= merge_max(b, a));
}

/// On clocks whose counters are not negative, merges can be grouped either way.
pub proof fn lemma_merge_associates(
    a: Map<Seq<char>, i64>,
    b: Map<Seq<char>, i64>,
    c: Map<Seq<char>, i64>,
)
    requires
        nonneg(a),
        nonneg(b),
        nonneg(c),
    ensures
        merge_max(merge_max(a, b), c) == merge_max(a, merge_max(b, c)),
{
    assert(merge_max(merge_max(a, b), c) =~= merge_max(a, merge_max(b, c)));
}

/// The Lamport rule on receipt: the new value is above both the local and the
/// received one.
pub proof fn lemma_receive_exceeds(local: i64, received: i64)
    ensures
        max_int(local as int, received as int) + 1 > local,
        max_int(local as int, received as int) + 1 > received,
{
}

/// Lamport clock and vector clock of one site.
#[derive(Clone, Debug)]
pub struct Clock {
    /// Lamport clock value for the total order of events.
    lamport_clock: i64,
    /// One counter per site.
    vector_clock: SiteMap<i64>,
}

impl Clock {
    /// The Lamport clock value.
    pub closed spec fn lamport(&self) -> i64 {
        self.lamport_clock
    }

    /// The vector clock, as a map from site identifier to counter.
    pub closed spec fn vector(&self) -> Map<Seq<char>, i64> {
        self.vector_clock@
    }

    /// The counters of the vector clock, in the order their sites were added.
    pub closed spec fn vector_values(&self) -> Seq<i64> {
        self.vector_clock.values()
    }

    /// Creates a clock with Lamport value 0 and no site.
    pub fn new() -> (c: Self)
        ensures
            c.lamport() == 0,
            c.vector() == Map::<Seq<char>, i64>::empty(),
    {
        Clock { lamport_clock: 0, vector_clock: SiteMap::new() }
    }

    /// A copy of the clock, with the same sites in the same order.
    pub fn duplicate(&self) -> (c: Self)
        ensures
            c.lamport() == self.lamport(),
            c.vector() == self.vector(),
            c.vector_values() == self.vector_values(),
    {
        Clock { lamport_clock: self.lamport_clock, vector_clock: self.vector_clock.copied() }
    }

    /// Creates a clock from a Lamport value and a vector clock.
    pub fn new_with_values(lamport_clock: i64, vector_clock: SiteMap<i64>) -> (c: Self)
        ensures
            c.lamport() == lamport_clock,
            c.vector() == vector_clock@,
            c.vector_values() == vector_clock.values(),
    {
        Clock { lamport_clock, vector_clock }
    }

    /// Adds a site to the vector clock with counter 0; a site already there keeps its counter.
    pub fn add_peer(&mut self, site_id: &str)
        ensures
            final(self).lamport() == old(self).lamport(),
            final(self).vector() == if old(self).vector().contains_key(site_id@) {
                old(self).vector()
            } else {
                old(self).vector().insert(site_id@, 0)
            },
    {
        if !self.vector_clock.contains_key(site_id) {
            self.vector_clock.insert(site_id.to_string(), 0);
        }
    }

    /// Increments the Lamport clock and returns the new value.
    pub fn increment_lamport(&mut self) -> (r: i64)
        requires
            old(self).lamport() < i64::MAX,
        ensures
            r == old(self).lamport() + 1,
            final(self).lamport() == r,
            final(self).vector() == old(self).vector(),
            final(self).vector_values() == old(self).vector_values(),
    {
        self.lamport_clock += 1;
        self.lamport_clock
    }

    /// Increments the counter of a site (starting from 0 for a new site) and returns it.
    pub fn increment_vector(&mut self, site_id: &str) -> (r: i64)
        requires
            get_or(old(self).vector(), site_id@, 0i64) < i64::MAX,
        ensures
            r == get_or(old(self).vector(), site_id@, 0i64) + 1,
            final(self).vector() == old(self).vector().insert(site_id@, r),
            final(self).lamport() == old(self).lamport(),
    {
        let cur: i64 = match self.vector_clock.get(site_id) {
            Some(v) => *v,
            None => 0,
        };
        let next = cur + 1;
        self.vector_clock.insert(site_id.to_string(), next);
        next
    }

    /// The Lamport clock value.
    pub fn get_lamport(&self) -> (r: i64)
        ensures
            r == self.lamport(),
    {
        self.lamport_clock
    }

    /// The vector clock.
    pub fn get_vector(&self) -> (r: &SiteMap<i64>)
        ensures
            r@ == self.vector(),
            r.values() == self.vector_values(),
    {
        &self.vector_clock
    }

    /// Merges a received vector clock: each site it names gets the larger of the local
    /// counter (0 where the site is new) and the received one.
    pub fn update_vector(&mut self, received_vc: &SiteMap<i64>)
        ensures
            final(self).vector() == merge_max(old(self).vector(), received_vc@),
            final(self).lamport() == old(self).lamport(),
    {
        proof {
            use_type_invariant(received_vc);
        }
        let ghost local = self.vector();
        let ghost p = received_vc.pairs();
        let n = received_vc.len();
        let mut i: usize = 0;
        assert(merge_max(local, pairs_to_map(p.take(0))) =~= local);
        while i < n
            invariant
                i <= n,
                n == p.len(),
                p == received_vc.pairs(),
                received_vc.keys().no_duplicates(),
                self.lamport() == old(self).lamport(),
                self.vector() == merge_max(local, pairs_to_map(p.take(i as int))),
            decreases n - i,
        {
            let site = received_vc.key_at(i);
            let val = *received_vc.value_at(i);
            let cur: i64 = match self.vector_clock.get(site.as_str()) {
                Some(v) => *v,
                None => 0,
            };
            let m = if cur >= val {
                cur
            } else {
                val
            };
            proof {
                lemma_prefix_step(p, i as int);
                lemma_merge_step(local, pairs_to_map(p.take(i as int)), p[i as int].0, val);
            }
            self.vector_clock.insert(site.clone(), m);
            i += 1;
        }
        proof {
            lemma_take_all(p);
        }
    }

    /// The counters of the vector clock, one per site, in the order the sites were added.
    pub fn get_vector_clock(&self) -> (r: Vec<i64>)
        ensures
            r@ == self.vector_values(),
            r.len() == self.vector().dom().len(),
            forall|k: Seq<char>| #[trigger]
                self.vector().contains_key(k) ==> r@.contains(self.vector()[k]),
    {
        proof {
            use_type_invariant(&self.vector_clock);
            self.vector_clock.lemma_distinct();
        }
        let n = self.vector_clock.len();
        let mut vc: Vec<i64> = Vec::new();
        let mut i: usize = 0;
        while i < n
            invariant
                i <= n,
                n == self.vector_clock.pairs().len(),
                vc@ =~= self.vector_clock.values().take(i as int),
            decreases n - i,
        {
            vc.push(*self.vector_clock.value_at(i));
            i += 1;
        }
        proof {
            assert(vc@ =~= self.vector_clock.values());
            assert forall|k: Seq<char>| #[trigger]
                self.vector().contains_key(k) implies vc@.contains(self.vector()[k]) by {
                let j = self.vector_clock.keys().index_of(k);
                assert(self.vector_clock.keys()[j] == self.vector_clock.pairs()[j].0);
                assert(vc@[j] == self.vector_clock.pairs()[j].1);
            }
        }
        vc
    }

    /// Adds a site to the vector clock with counter 0 unless it is already there.
    pub fn set_site_id(&mut self, site_id: &str)
        ensures
            final(self).lamport() == old(self).lamport(),
            final(self).vector() == if old(self).vector().contains_key(site_id@) {
                old(self).vector()
            } else {
                old(self).vector().insert(site_id@, 0)
            },
    {
        if !self.vector_clock.contains_key(site_id) {
            self.vector_clock.insert(site_id.to_string(), 0);
        }
    }

    /// Moves the counter of `old_site_id` to `new_site_id`; nothing changes where
    /// `old_site_id` has no counter.
    pub fn change_current_site_id(&mut self, old_site_id: &str, new_site_id: &str)
        ensures
            final(self).lamport() == old(self).lamport(),
            final(self).vector() == if old(self).vector().contains_key(old_site_id@) {
                old(self).vector().remove(old_site_id@).insert(
                    new_site_id@,
                    old(self).vector()[old_site_id@],
                )
            } else {
                old(self).vector()
            },
    {
        if let Some(value) = self.vector_clock.remove(old_site_id) {
            self.vector_clock.insert(new_site_id.to_string(), value);
        }
    }

    /// Sets the Lamport clock to the larger of its value and a received one.
    pub fn update_lamport(&mut self, received_lamport: i64)
        ensures
            final(self).lamport() == max_int(old(self).lamport() as int, received_lamport as int),
            final(self).vector() == old(self).vector(),
    {
        if received_lamport > self.lamport_clock {
            self.lamport_clock = received_lamport;
        }
    }

    /// Records a local event of `site_id`, after taking in the clock of a received
    /// message if there is one: the Lamport clock becomes one more than the larger of
    /// the local and the received value, the vector clocks are merged, and the
    /// counter of `site_id` is incremented.
    pub fn update_clock(&mut self, site_id: &str, received: Option<&Clock>)
        requires
            received matches Some(rc) ==> rc.lamport() < i64::MAX,
            old(self).lamport() < i64::MAX,
            get_or(
                match received {
                    Some(rc) => merge_max(old(self).vector(), rc.vector()),
                    None => old(self).vector(),
                },
                site_id@,
                0i64,
            ) < i64::MAX,
        ensures
            final(self).lamport() == match received {
                Some(rc) => max_int(old(self).lamport() as int, rc.lamport() as int) + 1,
                None => old(self).lamport() + 1,
            },
            ({
                let merged = match received {
                    Some(rc) => merge_max(old(self).vector(), rc.vector()),
                    None => old(self).vector(),
                };
                final(self).vector() == merged.insert(site_id@, (get_or(merged, site_id@, 0i64) + 1) as i64)
            }),
    {
        if let Some(rc) = received {
            self.update_lamport(rc.get_lamport());
            self.update_vector(rc.get_vector());
        }
        self.increment_lamport();
        self.increment_vector(site_id);
    }
}

} // verus!

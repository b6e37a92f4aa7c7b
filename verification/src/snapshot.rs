//! Distributed snapshots.
//!
//! Every node answers a snapshot request with its vector clock and the summaries
//! of the transactions it knows. Once all expected answers are in, they are
//! combined into a global snapshot: the union of all transactions, and for each
//! node the transactions it misses. Where the answers are not consistent, every
//! log is first cut back to the minimum vector clock.

use vstd::prelude::*;
use crate::sitemap::{SiteMap, get_or, pairs_to_map, lemma_prefix_step, lemma_take_all};
use crate::message::SnapshotResponse;

verus! {

/// Summary of a transaction, as far as snapshots need it.
#[derive(Clone, Debug, PartialEq, Eq, Hash)]
pub struct TxSummary {
    /// Lamport timestamp of the transaction.
    pub lamport_time: i64,
    /// Identifier of the node that created the transaction.
    pub source_node: String,
    /// Source user.
    pub from_user: String,
    /// Destination user.
    pub to_user: String,
    /// Amount, in cents.
    pub amount_in_cent: i64,
}

/// A transaction summary as plain values: time, source node, from, to, amount.
pub type TxView = (i64, Seq<char>, Seq<char>, Seq<char>, i64);

impl View for TxSummary {
    type V = TxView;

    open spec fn view(&self) -> TxView {
        (
            self.lamport_time,
            self.source_node@,
            self.from_user@,
            self.to_user@,
            self.amount_in_cent,
        )
    }
}

impl TxSummary {
    /// Whether two summaries hold the same values.
    pub fn same_as(&self, other: &TxSummary) -> (b: bool)
        ensures
            b == (self@ == other@),
    {
        self.lamport_time == other.lamport_time && self.source_node == other.source_node
            && self.from_user == other.from_user && self.to_user == other.to_user
            && self.amount_in_cent == other.amount_in_cent
    }

    /// A copy holding the same values.
    pub fn duplicate(&self) -> (t: TxSummary)
        ensures
            t@ == self@,
    {
        TxSummary {
            lamport_time: self.lamport_time,
            source_node: self.source_node.clone(),
            from_user: self.from_user.clone(),
            to_user: self.to_user.clone(),
            amount_in_cent: self.amount_in_cent,
        }
    }
}

/// What a node does once all expected local snapshots are in.
#[derive(Debug, Clone, Copy, PartialEq, Eq, Structural)]
pub enum SnapshotMode {
    /// Build the global snapshot and save it to a file.
    FileMode,
    /// Build the global snapshot and send it to the network.
    NetworkMode,
    /// Build the global snapshot and apply it to the local state.
    SyncMode,
}

/// The local snapshot of one node.
#[derive(Clone, Debug)]
pub struct LocalSnapshot {
    /// Identifier of the node.
    pub site_id: String,
    /// Its vector clock when the snapshot was taken.
    pub vector_clock: SiteMap<i64>,
    /// The transactions it knows.
    pub tx_log: Vec<TxSummary>,
}

/// The global snapshot built from local ones.
#[derive(Clone, Debug)]
pub struct GlobalSnapshot {
    /// Every transaction known to some node, each once.
    pub all_transactions: Vec<TxSummary>,
    /// For each node that misses some transaction, the transactions it misses.
    pub missing: SiteMap<Vec<TxSummary>>,
}

/// The values of a sequence of summaries.
pub open spec fn tx_views(v: Seq<TxSummary>) -> Seq<TxView> {
    v.map_values(|t: TxSummary| t@)
}

/// The set of values of a sequence of summaries.
pub open spec fn tx_set(v: Seq<TxSummary>) -> Set<TxView> {
    tx_views(v).to_set()
}

/// A local snapshot as plain values: node, vector clock, set of transactions.
pub type SnapView = (Seq<char>, Map<Seq<char>, i64>, Set<TxView>);

/// The plain values of a local snapshot.
pub open spec fn snap_view(s: LocalSnapshot) -> SnapView {
    (s.site_id@, s.vector_clock@, tx_set(s.tx_log@))
}

/// The plain values of a sequence of local snapshots.
pub open spec fn snap_views(s: Seq<LocalSnapshot>) -> Seq<SnapView> {
    s.map_values(|x: LocalSnapshot| snap_view(x))
}

/// Node `sj` has not been seen by `si` further than `sj` itself has come: where both
/// clocks hold a counter for `sj`, the one of `si` is not greater.
pub open spec fn pair_consistent(si: SnapView, sj: SnapView) -> bool {
    (si.1.contains_key(sj.0) && sj.1.contains_key(sj.0)) ==> si.1[sj.0] <= sj.1[sj.0]
}

/// A set of local snapshots is consistent when every pair of them is.
pub open spec fn consistent(v: Seq<SnapView>) -> bool {
    forall|i: int, j: int|
        0 <= i < v.len() && 0 <= j < v.len() ==> #[trigger] pair_consistent(v[i], v[j])
}

/// Consistency compares every ordered pair of snapshots, in both directions: the
/// snapshots are consistent exactly when, for all positions i and j, where both the
/// clock of i and the clock of j hold a counter for j's node, the one of i is not
/// greater than j's own.
pub proof fn lemma_consistent_all_pairs(v: Seq<SnapView>)
    ensures
        consistent(v) <==> forall|i: int, j: int|
            #![trigger v[i], v[j]]
            0 <= i < v.len() && 0 <= j < v.len() && v[i].1.contains_key(v[j].0) && v[j].1.contains_key(
                v[j].0,
            ) ==> v[i].1[v[j].0] <= v[j].1[v[j].0],
{
    if forall|i: int, j: int|
        #![trigger v[i], v[j]]
        0 <= i < v.len() && 0 <= j < v.len() && v[i].1.contains_key(v[j].0) && v[j].1.contains_key(
            v[j].0,
        ) ==> v[i].1[v[j].0] <= v[j].1[v[j].0] {
        assert forall|i: int, j: int| 0 <= i < v.len() && 0 <= j < v.len() implies #[trigger] pair_consistent(
            v[i],
            v[j],
        ) by {
            assert(v[i] == v[i] && v[j] == v[j]);
        }
    }
    if consistent(v) {
        assert forall|i: int, j: int|
            #![trigger v[i], v[j]]
            0 <= i < v.len() && 0 <= j < v.len() && v[i].1.contains_key(v[j].0)
                && v[j].1.contains_key(v[j].0) implies v[i].1[v[j].0] <= v[j].1[v[j].0] by {
            assert(pair_consistent(v[i], v[j]));
        }
    }
}

/// One pair of snapshots that breaks the order, in whichever direction (a later node
/// that saw more of an earlier one than that one did, or the other way round), makes
/// the snapshots inconsistent.
pub proof fn lemma_one_violation_inconsistent(v: Seq<SnapView>, i: int, j: int)
    requires
        0 <= i < v.len(),
        0 <= j < v.len(),
        v[i].1.contains_key(v[j].0),
        v[j].1.contains_key(v[j].0),
        v[i].1[v[j].0] > v[j].1[v[j].0],
    ensures
        !consistent(v),
{
    lemma_consistent_all_pairs(v);
}

/// The union of the transactions of all local snapshots.
pub open spec fn union_spec(v: Seq<SnapView>) -> Set<TxView>
    decreases v.len(),
{
    if v.len() == 0 {
        Set::empty()
    } else {
        union_spec(v.drop_last()).union(v.last().2)
    }
}

/// For each node, what it misses of `all`; a node that misses nothing gets no entry.
/// Where a node answers twice, its last answer counts.
pub open spec fn missing_spec(v: Seq<SnapView>, all: Set<TxView>) -> Map<Seq<char>, Set<TxView>>
    decreases v.len(),
{
    if v.len() == 0 {
        Map::empty()
    } else {
        let m = missing_spec(v.drop_last(), all);
        let d = all.difference(v.last().2);
        if d != Set::<TxView>::empty() {
            m.insert(v.last().0, d)
        } else {
            m
        }
    }
}

/// Whether a global snapshot is the one that the local snapshots `v` make.
pub open spec fn built_from(g: GlobalSnapshot, v: Seq<SnapView>) -> bool {
    &&& tx_set(g.all_transactions@) == union_spec(v)
    &&& tx_views(g.all_transactions@).no_duplicates()
    &&& g.missing@.dom() == missing_spec(v, union_spec(v)).dom()
    &&& forall|k: Seq<char>| #[trigger]
        g.missing@.contains_key(k) ==> tx_set(g.missing@[k]@) == missing_spec(
            v,
            union_spec(v),
        )[k] && tx_views(g.missing@[k]@).no_duplicates()
}

/// The smaller of two integers.
pub open spec fn min_int(a: int, b: int) -> int {
    if a <= b {
        a
    } else {
        b
    }
}

/// Merges two vector clocks keeping, per site, the smaller counter.
pub open spec fn merge_min(a: Map<Seq<char>, i64>, b: Map<Seq<char>, i64>) -> Map<Seq<char>, i64> {
    Map::new(
        |k: Seq<char>| a.contains_key(k) || b.contains_key(k),
        |k: Seq<char>|
            if a.contains_key(k) && b.contains_key(k) {
                min_int(a[k] as int, b[k] as int) as i64
            } else if a.contains_key(k) {
                a[k]
            } else {
                b[k]
            },
    )
}

/// The minimum vector clock of a set of local snapshots: for each site, the smallest
/// counter that some snapshot holds for it.
pub open spec fn vmin_spec(v: Seq<SnapView>) -> Map<Seq<char>, i64>
    decreases v.len(),
{
    if v.len() == 0 {
        Map::empty()
    } else {
        merge_min(vmin_spec(v.drop_last()), v.last().1)
    }
}

/// A transaction is kept when it is not later than the minimum counter of its source
/// node (0 where no snapshot has one).
pub open spec fn keep_tx(vmin: Map<Seq<char>, i64>, t: TxView) -> bool {
    t.0 <= get_or(vmin, t.1, 0i64)
}

/// The transactions of a set that `keep_tx` keeps.
pub open spec fn kept(s: Set<TxView>, vmin: Map<Seq<char>, i64>) -> Set<TxView> {
    Set::new(|t: TxView| s.contains(t) && keep_tx(vmin, t))
}

/// A local snapshot cut back to a minimum vector clock: its own counter becomes the
/// minimum one (0 where there is none), and its log keeps only what `keep_tx` keeps.
pub open spec fn trim_view(s: SnapView, vmin: Map<Seq<char>, i64>) -> SnapView {
    (s.0, s.1.insert(s.0, get_or(vmin, s.0, 0i64)), kept(s.2, vmin))
}

/// All local snapshots cut back to a minimum vector clock.
pub open spec fn trim_views(v: Seq<SnapView>, vmin: Map<Seq<char>, i64>) -> Seq<SnapView> {
    v.map_values(|s: SnapView| trim_view(s, vmin))
}

/// A single local snapshot, and no snapshot at all, are consistent.
pub proof fn lemma_single_consistent(s: SnapView)
    ensures
        consistent(seq![s]),
        consistent(Seq::<SnapView>::empty()),
{
    assert forall|i: int, j: int| 0 <= i < 1 && 0 <= j < 1 implies #[trigger] pair_consistent(
        seq![s][i],
        seq![s][j],
    ) by {
        assert(seq![s][i] == s && seq![s][j] == s);
    }
}

/// The union holds the transactions of every local snapshot, and nothing else.
pub proof fn lemma_union_members(v: Seq<SnapView>, t: TxView)
    ensures
        union_spec(v).contains(t) <==> exists|i: int| 0 <= i < v.len() && (#[trigger] v[i]).2.contains(t),
    decreases v.len(),
{
    if v.len() > 0 {
        lemma_union_members(v.drop_last(), t);
        if union_spec(v.drop_last()).contains(t) {
            let i = choose|i: int| 0 <= i < v.drop_last().len() && (#[trigger] v.drop_last()[i]).2.contains(t);
            assert(v[i] == v.drop_last()[i]);
        }
        if exists|i: int| 0 <= i < v.len() && (#[trigger] v[i]).2.contains(t) {
            let i = choose|i: int| 0 <= i < v.len() && (#[trigger] v[i]).2.contains(t);
            if i < v.len() - 1 {
                assert(v.drop_last()[i] == v[i]);
            }
        }
    }
}

/// Whether no node answers twice.
pub open spec fn distinct_sites(v: Seq<SnapView>) -> bool {
    forall|i: int, j: int| 0 <= i < v.len() && 0 <= j < v.len() && i != j ==> v[i].0 != v[j].0
}

/// The missing entry of a node is what it lacks of `all`, and a node lacks nothing
/// exactly where it has no entry (when no node answers twice).
pub proof fn lemma_missing_per_node(v: Seq<SnapView>, all: Set<TxView>, i: int)
    requires
        distinct_sites(v),
        0 <= i < v.len(),
    ensures
        missing_spec(v, all).contains_key(v[i].0) <==> all.difference(v[i].2) != Set::<TxView>::empty(),
        missing_spec(v, all).contains_key(v[i].0) ==> missing_spec(v, all)[v[i].0] == all.difference(v[i].2),
    decreases v.len(),
{
    let w = v.drop_last();
    if i == v.len() - 1 {
        if all.difference(v[i].2) == Set::<TxView>::empty() {
            lemma_missing_absent(w, all, v[i].0);
        }
    } else {
        assert(w[i] == v[i]);
        assert(distinct_sites(w)) by {
            assert forall|a: int, b: int| 0 <= a < w.len() && 0 <= b < w.len() && a != b implies w[a].0 != w[b].0 by {
                assert(w[a] == v[a] && w[b] == v[b]);
            }
        }
        lemma_missing_per_node(w, all, i);
        assert(v.last().0 != v[i].0);
    }
}

/// A node that answers in none of the snapshots has no missing entry.
proof fn lemma_missing_absent(v: Seq<SnapView>, all: Set<TxView>, k: Seq<char>)
    requires
        forall|j: int| 0 <= j < v.len() ==> (#[trigger] v[j]).0 != k,
    ensures
        !missing_spec(v, all).contains_key(k),
    decreases v.len(),
{
    if v.len() > 0 {
        let w = v.drop_last();
        assert forall|j: int| 0 <= j < w.len() implies (#[trigger] w[j]).0 != k by {
            assert(w[j] == v[j]);
        }
        lemma_missing_absent(w, all, k);
        assert(v[v.len() - 1].0 != k);
    }
}

/// In a global snapshot, what a node knows together with what it misses is every
/// transaction, once per node (when no node answers twice); a node with no missing
/// entry knows them all.
pub proof fn lemma_node_sees_all(g: GlobalSnapshot, v: Seq<SnapView>, i: int)
    requires
        built_from(g, v),
        distinct_sites(v),
        0 <= i < v.len(),
    ensures
        g.missing@.contains_key(v[i].0) ==> tx_set(g.all_transactions@) == v[i].2.union(
            tx_set(g.missing@[v[i].0]@),
        ),
        !g.missing@.contains_key(v[i].0) ==> tx_set(g.all_transactions@) == v[i].2,
        v[i].2.subset_of(tx_set(g.all_transactions@)),
{
    let u = union_spec(v);
    lemma_missing_per_node(v, u, i);
    assert forall|t: TxView| v[i].2.contains(t) implies u.contains(t) by {
        lemma_union_members(v, t);
    }
    if g.missing@.contains_key(v[i].0) {
        assert(u =~= v[i].2.union(u.difference(v[i].2)));
    } else {
        assert(u.difference(v[i].2) =~= Set::<TxView>::empty() ==> u =~= v[i].2) by {
            if u.difference(v[i].2) =~= Set::<TxView>::empty() {
                assert forall|t: TxView| u.contains(t) implies v[i].2.contains(t) by {
                    assert(!u.difference(v[i].2).contains(t));
                }
            }
        }
    }
}

/// Once the snapshots are cut back to a minimum vector clock, every transaction of the
/// union is one that `keep_tx` keeps.
pub proof fn lemma_trimmed_union_kept(v: Seq<SnapView>, vmin: Map<Seq<char>, i64>, t: TxView)
    requires
        union_spec(trim_views(v, vmin)).contains(t),
    ensures
        keep_tx(vmin, t),
        union_spec(v).contains(t),
{
    let w = trim_views(v, vmin);
    lemma_union_members(w, t);
    let i = choose|i: int| 0 <= i < w.len() && (#[trigger] w[i]).2.contains(t);
    assert(w[i] == trim_view(v[i], vmin));
    lemma_union_members(v, t);
    assert(v[i].2.contains(t));
}

proof fn lemma_merge_min_step(
    acc: Map<Seq<char>, i64>,
    part: Map<Seq<char>, i64>,
    k: Seq<char>,
    v: i64,
)
    requires
        !part.contains_key(k),
    ensures
        merge_min(acc, part.insert(k, v)) == merge_min(acc, part).insert(
            k,
            if merge_min(acc, part).contains_key(k) {
                min_int(merge_min(acc, part)[k] as int, v as int) as i64
            } else {
                v
            },
        ),
{
    assert(merge_min(acc, part.insert(k, v)) =~= merge_min(acc, part).insert(
        k,
        if merge_min(acc, part).contains_key(k) {
            min_int(merge_min(acc, part)[k] as int, v as int) as i64
        } else {
            v
        },
    ));
}

proof fn lemma_tx_set_push(v: Seq<TxSummary>, t: TxSummary)
    ensures
        tx_views(v.push(t)) == tx_views(v).push(t@),
        tx_set(v.push(t)) == tx_set(v).insert(t@),
{
    assert(tx_views(v.push(t)) =~= tx_views(v).push(t@));
    assert forall|x: TxView| #![auto] tx_set(v.push(t)).contains(x) <==> tx_set(v).insert(t@).contains(x) by {
        if tx_views(v).contains(x) {
            let j = tx_views(v).index_of(x);
            assert(tx_views(v.push(t))[j] == x);
        }
        if x == t@ {
            assert(tx_views(v.push(t))[v.len() as int] == x);
        }
        if tx_views(v.push(t)).contains(x) && x != t@ {
            let j = tx_views(v.push(t)).index_of(x);
            assert(j < v.len());
            assert(tx_views(v)[j] == x);
        }
    }
    assert(tx_set(v.push(t)) =~= tx_set(v).insert(t@));
}

proof fn lemma_nodup_push(s: Seq<TxView>, x: TxView)
    requires
        s.no_duplicates(),
        !s.contains(x),
    ensures
        s.push(x).no_duplicates(),
{
    assert forall|a: int, b: int|
        0 <= a < s.push(x).len() && 0 <= b < s.push(x).len() && a != b implies s.push(x)[a]
        != s.push(x)[b] by {
        if a == s.len() {
            assert(s[b] == s.push(x)[b]);
        } else if b == s.len() {
            assert(s[a] == s.push(x)[a]);
        }
    }
}

proof fn lemma_take_step<A>(v: Seq<A>, i: int)
    requires
        0 <= i < v.len(),
    ensures
        v.take(i + 1) == v.take(i).push(v[i]),
        v.take(i + 1).drop_last() == v.take(i),
        v.take(i + 1).last() == v[i],
{
    assert(v.take(i + 1) =~= v.take(i).push(v[i]));
    assert(v.take(i + 1).drop_last() =~= v.take(i));
}

proof fn lemma_tx_set_empty()
    ensures
        tx_set(Seq::<TxSummary>::empty()) == Set::<TxView>::empty(),
{
    assert(tx_set(Seq::<TxSummary>::empty()) =~= Set::<TxView>::empty());
}

/// Whether `v` holds a summary with the values of `t`.
fn holds_tx(v: &Vec<TxSummary>, t: &TxSummary) -> (b: bool)
    ensures
        b == tx_set(v@).contains(t@),
{
    let mut i: usize = 0;
    while i < v.len()
        invariant
            i <= v.len(),
            forall|j: int| 0 <= j < i ==> v@[j]@ != t@,
        decreases v.len() - i,
    {
        if v[i].same_as(t) {
            assert(tx_views(v@)[i as int] == t@);
            return true;
        }
        i += 1;
    }
    proof {
        if tx_views(v@).contains(t@) {
            let j = tx_views(v@).index_of(t@);
            assert(v@[j]@ == t@);
        }
    }
    false
}

impl GlobalSnapshot {
    /// Whether a set of local snapshots is consistent: for any two nodes i and j, the
    /// counter of j in the clock of i is not greater than the counter of j in its own
    /// clock (where both clocks hold one).
    pub fn is_consistent(snaps: &[LocalSnapshot]) -> (b: bool)
        ensures
            b == consistent(snap_views(snaps@)),
    {
        let ghost v = snap_views(snaps@);
        let n = snaps.len();
        let mut i: usize = 0;
        while i < n
            invariant
                n == snaps@.len(),
                v == snap_views(snaps@),
                i <= n,
                forall|a: int, b: int| 0 <= a < i && 0 <= b < n ==> #[trigger] pair_consistent(v[a], v[b]),
            decreases n - i,
        {
            let mut j: usize = 0;
            while j < n
                invariant
                    n == snaps@.len(),
                    v == snap_views(snaps@),
                    i < n,
                    j <= n,
                    forall|a: int, b: int| 0 <= a < i && 0 <= b < n ==> #[trigger] pair_consistent(v[a], v[b]),
                    forall|b: int| 0 <= b < j ==> #[trigger] pair_consistent(v[i as int], v[b]),
                decreases n - j,
            {
                let si = &snaps[i];
                let sj = &snaps[j];
                let cij = si.vector_clock.get(sj.site_id.as_str());
                let cjj = sj.vector_clock.get(sj.site_id.as_str());
                assert(v[i as int] == snap_view(snaps@[i as int]));
                assert(v[j as int] == snap_view(snaps@[j as int]));
                if let (Some(x), Some(y)) = (cij, cjj) {
                    if *x > *y {
                        assert(!pair_consistent(v[i as int], v[j as int]));
                        return false;
                    }
                }
                j += 1;
            }
            i += 1;
        }
        true
    }
}

/// What the node that started a snapshot does once the global snapshot is built.
#[derive(Debug, Clone, Copy, PartialEq, Eq, Structural)]
pub enum SnapshotAction {
    /// Save it to a file.
    Persist,
    /// Nothing more: the synchronization is done.
    SyncDone,
    /// Nothing: in network mode the starting node should not have completed it alone.
    Unexpected,
}

/// The number of local snapshots a node expects when it starts a snapshot: one per
/// connected neighbour, plus its own except in network mode.
pub fn expected_snapshots(mode: SnapshotMode, nb_connected: usize) -> (n: usize)
    requires
        nb_connected < usize::MAX,
    ensures
        n == if mode == SnapshotMode::NetworkMode {
            nb_connected as int
        } else {
            nb_connected + 1
        },
{
    match mode {
        SnapshotMode::NetworkMode => nb_connected,
        _ => nb_connected + 1,
    }
}

/// What to do with a global snapshot completed by the node that started it.
pub fn completion_action(mode: SnapshotMode) -> (a: SnapshotAction)
    ensures
        a == match mode {
            SnapshotMode::FileMode => SnapshotAction::Persist,
            SnapshotMode::SyncMode => SnapshotAction::SyncDone,
            SnapshotMode::NetworkMode => SnapshotAction::Unexpected,
        },
{
    match mode {
        SnapshotMode::FileMode => SnapshotAction::Persist,
        SnapshotMode::SyncMode => SnapshotAction::SyncDone,
        SnapshotMode::NetworkMode => SnapshotAction::Unexpected,
    }
}

/// Whether the node that starts a snapshot sends snapshot requests: not in network
/// mode (the requests are already on their way), and only where it has neighbours.
pub fn sends_snapshot_requests(mode: SnapshotMode, nb_connected: usize) -> (b: bool)
    ensures
        b == (mode != SnapshotMode::NetworkMode && nb_connected > 0),
{
    mode != SnapshotMode::NetworkMode && nb_connected > 0
}

/// Collects the local snapshots until all expected ones are in.
pub struct SnapshotManager {
    /// Number of local snapshots expected.
    pub expected: usize,
    /// The local snapshots received so far.
    pub received: Vec<LocalSnapshot>,
    /// Where the last global snapshot was saved, if it was.
    pub path: Option<String>,
    /// What to do with the global snapshot.
    pub mode: SnapshotMode,
}

impl SnapshotManager {
    /// Creates a manager that expects the given number of local snapshots.
    pub fn new(expected: usize) -> (m: Self)
        ensures
            m.expected == expected,
            m.received@.len() == 0,
            m.path is None,
            m.mode == SnapshotMode::FileMode,
    {
        SnapshotManager { expected, received: Vec::new(), path: None, mode: SnapshotMode::FileMode }
    }

    /// Starts a new snapshot: forgets the local snapshots received so far, sets the
    /// number expected and the mode, and adds the node's own local snapshot.
    pub fn begin(&mut self, expected: usize, mode: SnapshotMode, own: SnapshotResponse) -> (r: Option<GlobalSnapshot>)
        ensures
            final(self).expected == expected,
            final(self).mode == mode,
            final(self).path == old(self).path,
            snap_views(final(self).received@) == seq![(own.site_id@, own.clock.vector(), tx_set(own.tx_log@))],
            r is None <==> 1 < expected,
            r matches Some(g) ==> ({
                let v = snap_views(final(self).received@);
                if consistent(v) {
                    built_from(g, v)
                } else {
                    built_from(g, trim_views(v, vmin_spec(v)))
                }
            }),
    {
        self.expected = expected;
        self.received = Vec::new();
        self.mode = mode;
        assert(snap_views(self.received@) =~= Seq::<SnapView>::empty());
        let r = self.push(own);
        assert(seq![(own.site_id@, own.clock.vector(), tx_set(own.tx_log@))] =~= Seq::<SnapView>::empty().push((own.site_id@, own.clock.vector(), tx_set(own.tx_log@))));
        r
    }

    /// Adds a local snapshot. Once all expected ones are in, gives back the global
    /// snapshot: built from the local snapshots as they are where they are consistent,
    /// else from the local snapshots cut back to their minimum vector clock.
    pub fn push(&mut self, resp: SnapshotResponse) -> (r: Option<GlobalSnapshot>)
        ensures
            final(self).expected == old(self).expected,
            final(self).mode == old(self).mode,
            final(self).path == old(self).path,
            snap_views(final(self).received@) == snap_views(old(self).received@).push(
                (resp.site_id@, resp.clock.vector(), tx_set(resp.tx_log@)),
            ),
            r is None <==> final(self).received@.len() < final(self).expected,
            r matches Some(g) ==> ({
                let v = snap_views(final(self).received@);
                if consistent(v) {
                    built_from(g, v)
                } else {
                    built_from(g, trim_views(v, vmin_spec(v)))
                }
            }),
    {
        let SnapshotResponse { site_id, clock, tx_log } = resp;
        let vector_clock = clock.get_vector().copied();
        let ghost before = self.received@;
        self.received.push(LocalSnapshot { site_id, vector_clock, tx_log });
        proof {
            assert(snap_views(self.received@) =~= snap_views(before).push(
                snap_view(self.received@[self.received@.len() - 1]),
            ));
        }
        if self.received.len() < self.expected {
            return None;
        }
        if GlobalSnapshot::is_consistent(self.received.as_slice()) {
            return Some(self.build_snapshot(self.received.as_slice()));
        }
        let ghost v = snap_views(self.received@);
        let n = self.received.len();
        // The minimum vector clock: for each site, the smallest counter over all snapshots.
        let mut vmin: SiteMap<i64> = SiteMap::new();
        let mut i: usize = 0;
        assert(vmin_spec(v.take(0)) =~= Map::<Seq<char>, i64>::empty());
        while i < n
            invariant
                n == self.received@.len(),
                v == snap_views(self.received@),
                i <= n,
                vmin@ == vmin_spec(v.take(i as int)),
            decreases n - i,
        {
            let vc = &self.received[i].vector_clock;
            let m = vc.len();
            let ghost acc = vmin_spec(v.take(i as int));
            let ghost p = vc.pairs();
            let mut j: usize = 0;
            proof {
                use_type_invariant(vc);
                assert(pairs_to_map(p.take(0)) =~= Map::<Seq<char>, i64>::empty());
                assert(merge_min(acc, Map::<Seq<char>, i64>::empty()) =~= acc);
            }
            while j < m
                invariant
                    m == p.len(),
                    p == vc.pairs(),
                    vc.keys().no_duplicates(),
                    j <= m,
                    vmin@ == merge_min(acc, pairs_to_map(p.take(j as int))),
                decreases m - j,
            {
                let site = vc.key_at(j);
                let val = *vc.value_at(j);
                proof {
                    lemma_prefix_step(p, j as int);
                    lemma_merge_min_step(acc, pairs_to_map(p.take(j as int)), p[j as int].0, val);
                }
                match vmin.get(site.as_str()) {
                    Some(cur) => {
                        if val < *cur {
                            vmin.insert(site.clone(), val);
                        } else {
                            assert(vmin@.insert(site@, *cur) =~= vmin@);
                        }
                    },
                    None => {
                        vmin.insert(site.clone(), val);
                    },
                }
                j += 1;
            }
            proof {
                lemma_take_all(p);
                lemma_take_step(v, i as int);
                assert(v[i as int] == snap_view(self.received@[i as int]));
            }
            i += 1;
        }
        proof {
            assert(v.take(n as int) =~= v);
        }
        // Every snapshot cut back to the minimum vector clock.
        let mut trimmed: Vec<LocalSnapshot> = Vec::new();
        let mut i: usize = 0;
        while i < n
            invariant
                n == self.received@.len(),
                v == snap_views(self.received@),
                i <= n,
                vmin@ == vmin_spec(v),
                snap_views(trimmed@) =~= trim_views(v, vmin@).take(i as int),
            decreases n - i,
        {
            let s = &self.received[i];
            let lim: i64 = match vmin.get(s.site_id.as_str()) {
                Some(x) => *x,
                None => 0,
            };
            let mut vc = s.vector_clock.copied();
            vc.insert(s.site_id.clone(), lim);
            let log = &s.tx_log;
            let mut keep: Vec<TxSummary> = Vec::new();
            let mut j: usize = 0;
            proof {
                lemma_tx_set_empty();
                assert(kept(tx_set(log@.take(0)), vmin@) =~= Set::<TxView>::empty());
            }
            while j < log.len()
                invariant
                    j <= log@.len(),
                    tx_set(keep@) == kept(tx_set(log@.take(j as int)), vmin@),
                decreases log@.len() - j,
            {
                let t = &log[j];
                proof {
                    lemma_take_step(log@, j as int);
                    lemma_tx_set_push(log@.take(j as int), log@[j as int]);
                }
                let lim_t: i64 = match vmin.get(t.source_node.as_str()) {
                    Some(x) => *x,
                    None => 0,
                };
                if t.lamport_time <= lim_t {
                    let ghost before = keep@;
                    keep.push(t.duplicate());
                    proof {
                        lemma_tx_set_push(before, keep@[keep@.len() - 1]);
                        assert(keep@ == before.push(keep@[keep@.len() - 1]));
                    }
                }
                assert(tx_set(keep@) =~= kept(tx_set(log@.take(j as int + 1)), vmin@));
                j += 1;
            }
            proof {
                assert(log@.take(log@.len() as int) =~= log@);
                assert(v[i as int] == snap_view(self.received@[i as int]));
            }
            let ghost before = trimmed@;
            trimmed.push(LocalSnapshot { site_id: s.site_id.clone(), vector_clock: vc, tx_log: keep });
            proof {
                assert(snap_views(trimmed@) =~= snap_views(before).push(
                    trim_view(v[i as int], vmin@),
                ));
                assert(trim_views(v, vmin@).take(i as int + 1) =~= trim_views(v, vmin@).take(
                    i as int,
                ).push(trim_view(v[i as int], vmin@)));
            }
            i += 1;
        }
        proof {
            assert(trim_views(v, vmin@).take(n as int) =~= trim_views(v, vmin@));
        }
        Some(self.build_snapshot(trimmed.as_slice()))
    }

    /// Builds a global snapshot from local ones: the union of all transactions, and for
    /// each node the transactions it misses.
    fn build_snapshot(&self, snaps: &[LocalSnapshot]) -> (g: GlobalSnapshot)
        ensures
            built_from(g, snap_views(snaps@)),
    {
        let ghost v = snap_views(snaps@);
        let n = snaps.len();
        let mut union: Vec<TxSummary> = Vec::new();
        let mut i: usize = 0;
        proof {
            lemma_tx_set_empty();
            assert(v.take(0) =~= Seq::<SnapView>::empty());
        }
        while i < n
            invariant
                n == snaps@.len(),
                v == snap_views(snaps@),
                i <= n,
                tx_views(union@).no_duplicates(),
                tx_set(union@) == union_spec(v.take(i as int)),
            decreases n - i,
        {
            let log = &snaps[i].tx_log;
            let m = log.len();
            let mut j: usize = 0;
            proof {
                lemma_tx_set_empty();
                assert(log@.take(0) =~= Seq::<TxSummary>::empty());
                assert(union_spec(v.take(i as int)).union(Set::<TxView>::empty()) =~= union_spec(v.take(i as int)));
            }
            while j < m
                invariant
                    n == snaps@.len(),
                    v == snap_views(snaps@),
                    i < n,
                    j <= m,
                    m == log@.len(),
                    log == snaps@[i as int].tx_log,
                    tx_views(union@).no_duplicates(),
                    tx_set(union@) == union_spec(v.take(i as int)).union(tx_set(log@.take(j as int))),
                decreases m - j,
            {
                let t = &log[j];
                proof {
                    lemma_take_step(log@, j as int);
                    lemma_tx_set_push(log@.take(j as int), log@[j as int]);
                }
                if !holds_tx(&union, t) {
                    let ghost before = union@;
                    proof {
                        lemma_tx_set_push(before, *t);
                        lemma_nodup_push(tx_views(before), t@);
                    }
                    union.push(t.duplicate());
                    proof {
                        lemma_tx_set_push(before, union@[union@.len() - 1]);
                        assert(union@ == before.push(union@[union@.len() - 1]));
                    }
                }
                assert(tx_set(union@) =~= union_spec(v.take(i as int)).union(tx_set(log@.take(j as int + 1))));
                j += 1;
            }
            proof {
                lemma_take_step(v, i as int);
                assert(log@.take(m as int) =~= log@);
                assert(v[i as int].2 == tx_set(log@));
            }
            i += 1;
        }
        proof {
            assert(v.take(n as int) =~= v);
        }
        let ghost all = union_spec(v);
        let mut miss: SiteMap<Vec<TxSummary>> = SiteMap::new();
        let mut i: usize = 0;
        assert(missing_spec(v.take(0), all) =~= Map::<Seq<char>, Set<TxView>>::empty());
        while i < n
            invariant
                n == snaps@.len(),
                v == snap_views(snaps@),
                i <= n,
                tx_views(union@).no_duplicates(),
                tx_set(union@) == all,
                all == union_spec(v),
                miss@.dom() == missing_spec(v.take(i as int), all).dom(),
                forall|k: Seq<char>| #[trigger]
                    miss@.contains_key(k) ==> tx_set(miss@[k]@) == missing_spec(v.take(i as int), all)[k]
                        && tx_views(miss@[k]@).no_duplicates(),
            decreases n - i,
        {
            let s = &snaps[i];
            let mut diff: Vec<TxSummary> = Vec::new();
            let u = union.len();
            let mut j: usize = 0;
            proof {
                lemma_tx_set_empty();
            }
            while j < u
                invariant
                    i < n,
                    u == union@.len(),
                    j <= u,
                    tx_views(union@).no_duplicates(),
                    tx_views(diff@).no_duplicates(),
                    tx_set(diff@) == tx_set(union@.take(j as int)).difference(tx_set(s.tx_log@)),
                decreases u - j,
            {
                let t = &union[j];
                proof {
                    lemma_take_step(union@, j as int);
                    lemma_tx_set_push(union@.take(j as int), union@[j as int]);
                }
                if !holds_tx(&s.tx_log, t) {
                    let ghost before = diff@;
                    proof {
                        if tx_views(before).contains(t@) {
                            assert(tx_set(before).contains(t@));
                            assert(tx_set(union@.take(j as int)).contains(t@));
                            let a = tx_views(union@.take(j as int)).index_of(t@);
                            assert(tx_views(union@.take(j as int))[a] == t@);
                            assert(union@.take(j as int)[a] == union@[a]);
                            assert(tx_views(union@)[a] == t@);
                            assert(tx_views(union@)[j as int] == t@);
                            assert(false);
                        }
                        lemma_nodup_push(tx_views(before), t@);
                    }
                    diff.push(t.duplicate());
                    proof {
                        lemma_tx_set_push(before, diff@[diff@.len() - 1]);
                        assert(diff@ == before.push(diff@[diff@.len() - 1]));
                        assert(tx_views(diff@) =~= tx_views(before).push(t@));
                    }
                }
                assert(tx_set(diff@) =~= tx_set(union@.take(j as int + 1)).difference(tx_set(s.tx_log@)));
                j += 1;
            }
            proof {
                assert(union@.take(u as int) =~= union@);
                lemma_take_step(v, i as int);
                assert(v[i as int] == snap_view(snaps@[i as int]));
            }
            let ghost prev = miss@;
            if diff.len() > 0 {
                proof {
                    assert(tx_views(diff@)[0] == diff@[0]@);
                    assert(tx_set(diff@).contains(diff@[0]@));
                }
                miss.insert(s.site_id.clone(), diff);
            } else {
                proof {
                    assert(tx_set(diff@) =~= Set::<TxView>::empty());
                }
            }
            assert(miss@.dom() =~= missing_spec(v.take(i as int + 1), all).dom());
            i += 1;
        }
        proof {
            assert(v.take(n as int) =~= v);
        }
        GlobalSnapshot { all_transactions: union, missing: miss }
    }
}

} // verus!

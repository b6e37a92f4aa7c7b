//! The state of a node: who it is, its neighbours, its clocks, the bookkeeping of
//! the wave protocol, and the global mutual exclusion.
//!
//! Everything here decides and updates; sending messages, saving the state and
//! waking up waiting tasks is left to the caller.

use vstd::prelude::*;
use crate::addr::{AddrMap, SiteAddr};
use crate::clock::{Clock, merge_max};
use crate::sitemap::{SiteMap, get_or, pairs_to_map, lemma_prefix_step, lemma_take_all};

verus! {

/// Kind of an entry of the global mutual exclusion queue.
#[derive(Debug, Clone, Copy, PartialEq, Eq, Structural)]
pub enum MutexTag {
    /// The site asks for the critical section.
    Request,
    /// The site released the critical section.
    Release,
    /// The site acknowledged a request.
    Ack,
}

/// An entry of the global mutual exclusion queue: its kind and Lamport date.
#[derive(Debug, Clone, Copy, PartialEq, Eq, Structural)]
pub struct MutexStamp {
    /// Kind of the entry.
    pub tag: MutexTag,
    /// Lamport date of the entry.
    pub date: i64,
}

/// Lexicographic order of two strings, character by character (by code point);
/// it is the order of their UTF-8 bytes, that is, the order of Rust strings.
pub open spec fn chars_le(a: Seq<char>, b: Seq<char>) -> bool
    decreases a.len(),
{
    if a.len() == 0 {
        true
    } else if b.len() == 0 {
        false
    } else if a[0] != b[0] {
        (a[0] as u32) < (b[0] as u32)
    } else {
        chars_le(a.drop_first(), b.drop_first())
    }
}

/// Two different strings are never ordered both ways.
pub proof fn lemma_chars_le_antisymmetric(a: Seq<char>, b: Seq<char>)
    requires
        chars_le(a, b),
        chars_le(b, a),
    ensures
        a == b,
    decreases a.len(),
{
    if a.len() > 0 && b.len() > 0 && a[0] == b[0] {
        lemma_chars_le_antisymmetric(a.drop_first(), b.drop_first());
        assert(a =~= seq![a[0]] + a.drop_first());
        assert(b =~= seq![b[0]] + b.drop_first());
    }
    if a.len() == 0 && b.len() == 0 {
        assert(a =~= b);
    }
}

/// The order of requests: by date, then by site identifier.
pub open spec fn stamp_le(d1: i64, id1: Seq<char>, d2: i64, id2: Seq<char>) -> bool {
    d1 < d2 || (d1 == d2 && chars_le(id1, id2))
}

/// Site `me` may enter the critical section: it has an entry, and no other site has
/// a request that comes before it.
pub open spec fn may_enter(fifo: Map<Seq<char>, MutexStamp>, me: Seq<char>) -> bool {
    &&& fifo.contains_key(me)
    &&& forall|k: Seq<char>|
        #[trigger] fifo.contains_key(k) && k != me && fifo[k].tag == MutexTag::Request ==> stamp_le(
            fifo[me].date,
            me,
            fifo[k].date,
            k,
        )
}

/// The entries of the queue that are not releases.
pub open spec fn without_releases(fifo: Map<Seq<char>, MutexStamp>) -> Map<Seq<char>, MutexStamp> {
    Map::new(|k: Seq<char>| fifo.contains_key(k) && fifo[k].tag != MutexTag::Release, |k: Seq<char>| fifo[k])
}

/// Mutual exclusion: of two different sites that both request the critical section,
/// the same queue lets at most one in.
pub proof fn lemma_mutual_exclusion(fifo: Map<Seq<char>, MutexStamp>, a: Seq<char>, b: Seq<char>)
    requires
        a != b,
        fifo.contains_key(a),
        fifo.contains_key(b),
        fifo[a].tag == MutexTag::Request,
        fifo[b].tag == MutexTag::Request,
    ensures
        !(may_enter(fifo, a) && may_enter(fifo, b)),
{
    if may_enter(fifo, a) && may_enter(fifo, b) {
        assert(stamp_le(fifo[a].date, a, fifo[b].date, b));
        assert(stamp_le(fifo[b].date, b, fifo[a].date, a));
        lemma_chars_le_antisymmetric(a, b);
    }
}

/// Whether `a` comes before or with `b` in the order of strings.
fn str_le(a: &str, b: &str) -> (r: bool)
    ensures
        r == chars_le(a@, b@),
{
    let la = a.unicode_len();
    let lb = b.unicode_len();
    let mut i: usize = 0;
    assert(a@.skip(0) =~= a@);
    assert(b@.skip(0) =~= b@);
    while i < la && i < lb
        invariant
            la == a@.len(),
            lb == b@.len(),
            i <= la,
            i <= lb,
            chars_le(a@, b@) == chars_le(a@.skip(i as int), b@.skip(i as int)),
        decreases la - i,
    {
        let ca = a.get_char(i);
        let cb = b.get_char(i);
        assert(a@.skip(i as int)[0] == ca);
        assert(b@.skip(i as int)[0] == cb);
        if ca != cb {
            return (ca as u32) < (cb as u32);
        }
        assert(a@.skip(i as int).drop_first() =~= a@.skip(i as int + 1));
        assert(b@.skip(i as int).drop_first() =~= b@.skip(i as int + 1));
        i += 1;
    }
    i == la
}

/// What a node does after taking in a transaction of a wave.
#[derive(Debug, Clone, Copy, PartialEq, Eq, Structural)]
pub enum WaveStep {
    /// Pass the transaction on to the other neighbours.
    Diffuse,
    /// Acknowledge the transaction to its sender; `reset` tells that the wave of this
    /// initiator is over here and its bookkeeping was reset.
    AcknowledgeSender { reset: bool },
}

/// What a node does after an acknowledgement of a transaction.
#[derive(Debug, Clone, Copy, PartialEq, Eq, Structural)]
pub enum AckStep {
    /// This node started the wave, and every neighbour acknowledged it.
    WaveComplete,
    /// Every child acknowledged: acknowledge to the parent at this address.
    ForwardToParent(SiteAddr),
    /// Some acknowledgements are still expected.
    Waiting,
}

/// The step of a node with `n` neighbours that takes in a transaction of the wave of
/// `init` from `sender`, from its bookkeeping (`att`: answers expected, `par`:
/// parents): the new bookkeeping and what to do. The first time (no parent), the
/// sender becomes the parent and one answer fewer is expected (starting from `n`); the
/// transaction is passed on while answers remain expected. Otherwise the sender is
/// acknowledged, and where it is the parent the bookkeeping of the wave is reset to
/// `n` answers and no parent.
pub open spec fn wave_next(
    att: Map<Seq<char>, i64>,
    par: Map<Seq<char>, SiteAddr>,
    n: i64,
    init: Seq<char>,
    sender: SiteAddr,
) -> (Map<Seq<char>, i64>, Map<Seq<char>, SiteAddr>, WaveStep) {
    let unset = SiteAddr::V4 { ip: 0, port: 0 };
    let first = get_or(par, init, unset) == unset;
    let left = get_or(att, init, n) - 1;
    let par1 = if first {
        par.insert(init, sender)
    } else {
        par
    };
    let att1 = if first {
        att.insert(init, left as i64)
    } else {
        att
    };
    if first && left > 0 {
        (att1, par1, WaveStep::Diffuse)
    } else if get_or(par1, init, unset) == sender {
        (att1.insert(init, n), par1.insert(init, unset), WaveStep::AcknowledgeSender { reset: true })
    } else {
        (att1, par1, WaveStep::AcknowledgeSender { reset: false })
    }
}

/// A node that meets a wave for the first time passes it on where it has other
/// neighbours than the sender, and otherwise (a leaf) acknowledges it at once and is
/// done with it.
pub proof fn lemma_fresh_wave(
    att: Map<Seq<char>, i64>,
    par: Map<Seq<char>, SiteAddr>,
    n: i64,
    init: Seq<char>,
    sender: SiteAddr,
)
    requires
        !att.contains_key(init),
        !par.contains_key(init),
        sender != (SiteAddr::V4 { ip: 0, port: 0 }),
    ensures
        n >= 2 ==> wave_next(att, par, n, init, sender).2 == WaveStep::Diffuse && wave_next(
            att,
            par,
            n,
            init,
            sender,
        ).1[init] == sender,
        n == 1 ==> wave_next(att, par, n, init, sender).2 == (WaveStep::AcknowledgeSender {
            reset: true,
        }) && wave_next(att, par, n, init, sender).0[init] == 1 && wave_next(
            att,
            par,
            n,
            init,
            sender,
        ).1[init] == (SiteAddr::V4 { ip: 0, port: 0 }),
{
}

/// After a wave is over at a node (parent reset to `0.0.0.0:0`, answers reset to the
/// `n` neighbours), the next transaction of the same initiator starts a new wave: with
/// two neighbours or more it is passed on, the sender becomes the parent and one answer
/// fewer is expected; a reset entry counts exactly as no entry.
pub proof fn lemma_wave_after_reset(
    att: Map<Seq<char>, i64>,
    par: Map<Seq<char>, SiteAddr>,
    n: i64,
    init: Seq<char>,
    sender: SiteAddr,
)
    requires
        par.contains_key(init),
        par[init] == (SiteAddr::V4 { ip: 0, port: 0 }),
        att.contains_key(init),
        att[init] == n,
        n >= 2,
        n <= i64::MAX,
    ensures
        wave_next(att, par, n, init, sender).2 == WaveStep::Diffuse,
        wave_next(att, par, n, init, sender).1[init] == sender,
        wave_next(att, par, n, init, sender).0[init] == n - 1,
        wave_next(att, par, n, init, sender) == wave_next(att, par.remove(init), n, init, sender),
{
    assert(par.remove(init).insert(init, sender) =~= par.insert(init, sender));
}

/// The last expected acknowledgement of a wave goes on to the recorded parent (the
/// whole socket address, port included) unless that parent is the node itself, where
/// the wave is complete.
pub proof fn lemma_last_ack_goes_to_parent(
    att: Map<Seq<char>, i64>,
    par: Map<Seq<char>, SiteAddr>,
    me: SiteAddr,
    n: i64,
    init: Seq<char>,
)
    requires
        att.contains_key(init),
        att[init] == 1,
        par.contains_key(init),
    ensures
        par[init] != me ==> ack_next(att, par, me, n, init).2 == AckStep::ForwardToParent(par[init]),
        par[init] == me ==> ack_next(att, par, me, n, init).2 == AckStep::WaveComplete,
        ack_next(att, par, me, n, init).0[init] == n,
        ack_next(att, par, me, n, init).1[init] == (SiteAddr::V4 { ip: 0, port: 0 }),
{
}

/// Two different addresses that share their IP address (two nodes on one host, told
/// apart by their ports) are never taken for each other: the last acknowledgement
/// goes on to the parent.
pub proof fn lemma_same_host_parent_is_forwarded(
    att: Map<Seq<char>, i64>,
    par: Map<Seq<char>, SiteAddr>,
    ip: u32,
    my_port: u16,
    parent_port: u16,
    n: i64,
    init: Seq<char>,
)
    requires
        att.contains_key(init),
        att[init] == 1,
        par.contains_key(init),
        par[init] == (SiteAddr::V4 { ip, port: parent_port }),
        my_port != parent_port,
    ensures
        ack_next(att, par, SiteAddr::V4 { ip, port: my_port }, n, init).2 == AckStep::ForwardToParent(
            SiteAddr::V4 { ip, port: parent_port },
        ),
{
}

/// Every string is ordered with every other one, one way or the other.
pub proof fn lemma_chars_le_total(a: Seq<char>, b: Seq<char>)
    ensures
        chars_le(a, b) || chars_le(b, a),
    decreases a.len(),
{
    if a.len() > 0 && b.len() > 0 {
        if a[0] == b[0] {
            lemma_chars_le_total(a.drop_first(), b.drop_first());
        } else {
            let x = a[0];
            let y = b[0];
            assert((x as u32) != (y as u32)) by {
                if (x as u32) == (y as u32) {
                    vstd::utf8::char_u32_cast(x, x as u32);
                    vstd::utf8::char_u32_cast(y, y as u32);
                }
            }
        }
    }
}

/// Every string comes before or with itself.
pub proof fn lemma_chars_le_reflexive(a: Seq<char>)
    ensures
        chars_le(a, a),
    decreases a.len(),
{
    if a.len() > 0 {
        lemma_chars_le_reflexive(a.drop_first());
    }
}

/// Requests are ordered by date first, whatever the site names: a strictly earlier
/// request comes first, a strictly later one does not; with equal dates the site
/// names decide. Any two requests are ordered one way or the other.
pub proof fn lemma_request_order(d1: i64, id1: Seq<char>, d2: i64, id2: Seq<char>)
    ensures
        d1 < d2 ==> stamp_le(d1, id1, d2, id2),
        d1 > d2 ==> !stamp_le(d1, id1, d2, id2),
        d1 == d2 ==> (stamp_le(d1, id1, d2, id2) <==> chars_le(id1, id2)),
        stamp_le(d1, id1, d2, id2) || stamp_le(d2, id2, d1, id1),
{
    lemma_chars_le_total(id1, id2);
}

/// A site whose request has a strictly earlier date than every other request in the
/// queue may enter the critical section, whatever the site names.
pub proof fn lemma_earliest_request_enters(fifo: Map<Seq<char>, MutexStamp>, me: Seq<char>)
    requires
        fifo.contains_key(me),
        forall|k: Seq<char>|
            #[trigger] fifo.contains_key(k) && k != me && fifo[k].tag == MutexTag::Request
                ==> fifo[me].date < fifo[k].date,
    ensures
        may_enter(fifo, me),
{
}

/// The step of a node that takes in an acknowledgement of the wave of `init`, from its
/// bookkeeping (`att`: answers expected, `par`: parents), its address `me` and its
/// number of neighbours `n`: the new bookkeeping and what to do. One answer fewer is
/// expected (starting from `n`); when none remains, the wave is complete where the
/// node is its own parent, else the acknowledgement goes on to the parent, and the
/// bookkeeping of the wave is reset to `n` answers and no parent.
pub open spec fn ack_next(
    att: Map<Seq<char>, i64>,
    par: Map<Seq<char>, SiteAddr>,
    me: SiteAddr,
    n: i64,
    init: Seq<char>,
) -> (Map<Seq<char>, i64>, Map<Seq<char>, SiteAddr>, AckStep) {
    let unset = SiteAddr::V4 { ip: 0, port: 0 };
    let left = get_or(att, init, n) - 1;
    if left != 0 {
        (att.insert(init, left as i64), par, AckStep::Waiting)
    } else {
        let step = if get_or(par, init, SiteAddr::V4 { ip: 0x63636363, port: 0 }) == me {
            AckStep::WaveComplete
        } else {
            AckStep::ForwardToParent(get_or(par, init, unset))
        };
        (att.insert(init, n), par.insert(init, unset), step)
    }
}

/// The bookkeeping and last step after `j` acknowledgements of the wave of `init`.
pub open spec fn acks(
    att: Map<Seq<char>, i64>,
    par: Map<Seq<char>, SiteAddr>,
    me: SiteAddr,
    n: i64,
    init: Seq<char>,
    j: nat,
) -> (Map<Seq<char>, i64>, Map<Seq<char>, SiteAddr>, AckStep)
    decreases j,
{
    if j == 0 {
        (att, par, AckStep::Waiting)
    } else {
        let r = acks(att, par, me, n, init, (j - 1) as nat);
        ack_next(r.0, r.1, me, n, init)
    }
}

/// A wave completes at its initiator: when the initiator expects `k` answers, the
/// first `k - 1` acknowledgements leave it waiting, the `k`-th completes the wave, and
/// the bookkeeping of the wave is then reset (`n` answers, no parent).
pub proof fn lemma_wave_completes(
    att: Map<Seq<char>, i64>,
    par: Map<Seq<char>, SiteAddr>,
    me: SiteAddr,
    n: i64,
    init: Seq<char>,
    k: i64,
)
    requires
        k >= 1,
        att.contains_key(init),
        att[init] == k,
        par.contains_key(init),
        par[init] == me,
    ensures
        forall|j: nat| 1 <= j < k ==> (#[trigger] acks(att, par, me, n, init, j)).2 == AckStep::Waiting,
        acks(att, par, me, n, init, k as nat).2 == AckStep::WaveComplete,
        acks(att, par, me, n, init, k as nat).0[init] == n,
        acks(att, par, me, n, init, k as nat).1[init] == (SiteAddr::V4 { ip: 0, port: 0 }),
{
    assert forall|j: nat| j < k implies {
        let r = #[trigger] acks(att, par, me, n, init, j);
        &&& r.0.contains_key(init)
        &&& r.0[init] == k - j
        &&& r.1 == par
        &&& j >= 1 ==> r.2 == AckStep::Waiting
    } by {
        lemma_acks_count_down(att, par, me, n, init, k, j);
    }
    lemma_acks_count_down(att, par, me, n, init, k, (k - 1) as nat);
}

proof fn lemma_acks_count_down(
    att: Map<Seq<char>, i64>,
    par: Map<Seq<char>, SiteAddr>,
    me: SiteAddr,
    n: i64,
    init: Seq<char>,
    k: i64,
    j: nat,
)
    requires
        k >= 1,
        j < k,
        att.contains_key(init),
        att[init] == k,
    ensures
        acks(att, par, me, n, init, j).0.contains_key(init),
        acks(att, par, me, n, init, j).0[init] == k - j,
        acks(att, par, me, n, init, j).1 == par,
        j >= 1 ==> acks(att, par, me, n, init, j).2 == AckStep::Waiting,
    decreases j,
{
    if j > 0 {
        lemma_acks_count_down(att, par, me, n, init, k, (j - 1) as nat);
    }
}

/// The parts of a node's state, to say which ones an operation changes.
#[derive(Debug, Clone, Copy, PartialEq, Eq, Structural)]
pub enum StatePart {
    /// Identifier of the site.
    SiteId,
    /// Address of the site.
    SiteAddr,
    /// Peers given at launch.
    CliPeers,
    /// Connected neighbours.
    Connected,
    /// Sockets of the connected neighbours.
    Sockets,
    /// Whether a synchronization is needed.
    Sync,
    /// Number of neighbours expected at launch.
    FirstAttended,
    /// Site identifier of each neighbour address.
    SiteIds,
    /// Parent of each wave.
    Parents,
    /// Expected answers of each wave.
    Attended,
    /// Logical clocks.
    Clocks,
    /// Global mutual exclusion queue.
    Fifo,
    /// Waiting for the critical section.
    Waiting,
    /// In the critical section.
    InSc,
}

/// The state of one node.
pub struct AppState {
    site_id: String,
    site_addr: SiteAddr,
    cli_peer_addrs: Vec<SiteAddr>,
    connected_neighbours_addrs: Vec<SiteAddr>,
    neighbours_socket: AddrMap<SiteAddr>,
    sync_needed: bool,
    nb_first_attended_neighbours: i64,
    /// Site identifier of each neighbour address.
    pub site_ids_to_adr: AddrMap<String>,
    /// For each wave (by initiator), the neighbour it came from.
    pub parent_addr_for_transaction_wave: SiteMap<SiteAddr>,
    /// For each wave (by initiator), the number of answers still expected.
    pub attended_neighbours_nb_for_transaction_wave: SiteMap<i64>,
    clocks: Clock,
    /// The global mutual exclusion queue: one entry per site.
    pub global_mutex_fifo: SiteMap<MutexStamp>,
    /// Waiting for the critical section.
    pub waiting_sc: bool,
    /// In the critical section.
    pub in_sc: bool,
}

impl AppState {
    /// Identifier of the site.
    pub closed spec fn id(&self) -> Seq<char> {
        self.site_id@
    }

    /// Address of the site.
    pub closed spec fn addr(&self) -> SiteAddr {
        self.site_addr
    }

    /// Peers given at launch.
    pub closed spec fn cli_peers(&self) -> Seq<SiteAddr> {
        self.cli_peer_addrs@
    }

    /// Connected neighbours.
    pub closed spec fn connected(&self) -> Seq<SiteAddr> {
        self.connected_neighbours_addrs@
    }

    /// Address of the neighbour behind each socket.
    pub closed spec fn sockets(&self) -> Map<SiteAddr, SiteAddr> {
        self.neighbours_socket@
    }

    /// Whether a synchronization is needed.
    pub closed spec fn sync(&self) -> bool {
        self.sync_needed
    }

    /// Number of neighbours expected at launch.
    pub closed spec fn first_attended(&self) -> i64 {
        self.nb_first_attended_neighbours
    }

    /// The logical clocks.
    pub closed spec fn clock(&self) -> Clock {
        self.clocks
    }

    /// Parent of each wave.
    pub closed spec fn parents(&self) -> Map<Seq<char>, SiteAddr> {
        self.parent_addr_for_transaction_wave@
    }

    /// Answers still expected for each wave.
    pub closed spec fn attended(&self) -> Map<Seq<char>, i64> {
        self.attended_neighbours_nb_for_transaction_wave@
    }

    /// The mutual exclusion queue.
    pub closed spec fn fifo(&self) -> Map<Seq<char>, MutexStamp> {
        self.global_mutex_fifo@
    }

    /// Site identifier of each neighbour address.
    pub closed spec fn site_ids(&self) -> Map<SiteAddr, String> {
        self.site_ids_to_adr@
    }

    /// Whether the site waits for the critical section.
    pub closed spec fn waiting(&self) -> bool {
        self.waiting_sc
    }

    /// Whether the site is in the critical section.
    pub closed spec fn critical(&self) -> bool {
        self.in_sc
    }

    /// Whether `self` and `other` agree on every part of the state but those in `changed`.
    pub open spec fn agrees_except(&self, other: &AppState, changed: Set<StatePart>) -> bool {
        &&& !changed.contains(StatePart::SiteId) ==> self.id() == other.id()
        &&& !changed.contains(StatePart::SiteAddr) ==> self.addr() == other.addr()
        &&& !changed.contains(StatePart::CliPeers) ==> self.cli_peers() == other.cli_peers()
        &&& !changed.contains(StatePart::Connected) ==> self.connected() == other.connected()
        &&& !changed.contains(StatePart::Sockets) ==> self.sockets() == other.sockets()
        &&& !changed.contains(StatePart::Sync) ==> self.sync() == other.sync()
        &&& !changed.contains(StatePart::FirstAttended) ==> self.first_attended()
            == other.first_attended()
        &&& !changed.contains(StatePart::SiteIds) ==> self.site_ids() == other.site_ids()
        &&& !changed.contains(StatePart::Parents) ==> self.parents() == other.parents()
        &&& !changed.contains(StatePart::Attended) ==> self.attended() == other.attended()
        &&& !changed.contains(StatePart::Clocks) ==> self.clock().lamport()
            == other.clock().lamport() && self.clock().vector() == other.clock().vector()
        &&& !changed.contains(StatePart::Fifo) ==> self.fifo() == other.fifo()
        &&& !changed.contains(StatePart::Waiting) ==> self.waiting() == other.waiting()
        &&& !changed.contains(StatePart::InSc) ==> self.critical() == other.critical()
    }

    /// Creates the state of a node from its identifier, the peers given at launch and
    /// its address.
    pub fn new(site_id: String, peer_addrs: Vec<SiteAddr>, local_addr: SiteAddr) -> (s: Self)
        ensures
            s.id() == site_id@,
            s.addr() == local_addr,
            s.cli_peers() == peer_addrs@,
            s.connected().len() == 0,
            s.sockets() == Map::<SiteAddr, SiteAddr>::empty(),
            !s.sync(),
            s.first_attended() == 0,
            s.site_ids() == Map::<SiteAddr, String>::empty(),
            s.parents() == Map::<Seq<char>, SiteAddr>::empty(),
            s.attended() == Map::<Seq<char>, i64>::empty(),
            s.clock().lamport() == 0,
            s.clock().vector() == Map::<Seq<char>, i64>::empty(),
            s.fifo() == Map::<Seq<char>, MutexStamp>::empty(),
            !s.waiting(),
            !s.critical(),
    {
        AppState {
            site_id,
            site_addr: local_addr,
            cli_peer_addrs: peer_addrs,
            connected_neighbours_addrs: Vec::new(),
            neighbours_socket: AddrMap::new(),
            sync_needed: false,
            nb_first_attended_neighbours: 0,
            site_ids_to_adr: AddrMap::new(),
            parent_addr_for_transaction_wave: SiteMap::new(),
            attended_neighbours_nb_for_transaction_wave: SiteMap::new(),
            clocks: Clock::new(),
            global_mutex_fifo: SiteMap::new(),
            waiting_sc: false,
            in_sc: false,
        }
    }

    /// The mutual exclusion queue.
    pub fn get_global_mutex_fifo(&self) -> (r: &SiteMap<MutexStamp>)
        ensures
            r@ == self.fifo(),
    {
        &self.global_mutex_fifo
    }

    /// Takes a received queue, but only where it has more entries than the local one.
    pub fn set_global_mutex_fifo(&mut self, global_mutex_fifo: SiteMap<MutexStamp>)
        ensures
            final(self).fifo() == if old(self).fifo().dom().len() >= global_mutex_fifo@.dom().len() {
                old(self).fifo()
            } else {
                global_mutex_fifo@
            },
            final(self).agrees_except(old(self), set![StatePart::Fifo]),
    {
        if self.global_mutex_fifo.len() >= global_mutex_fifo.len() {
            return;
        }
        self.global_mutex_fifo = global_mutex_fifo;
    }

    /// Records the site identifier of a neighbour address, unless one is already recorded.
    pub fn add_site_id(&mut self, site_id: String, addr: SiteAddr)
        ensures
            final(self).site_ids() == if old(self).site_ids().contains_key(addr) {
                old(self).site_ids()
            } else {
                old(self).site_ids().insert(addr, site_id)
            },
            final(self).agrees_except(old(self), set![StatePart::SiteIds]),
    {
        if !self.site_ids_to_adr.contains_key(&addr) {
            self.site_ids_to_adr.insert(addr, site_id);
        }
    }

    /// Sets the site identifier.
    pub fn init_site_id(&mut self, site_id: String)
        ensures
            final(self).id() == site_id@,
            final(self).agrees_except(old(self), set![StatePart::SiteId]),
    {
        self.site_id = site_id;
    }

    /// Sets the site address.
    pub fn init_site_addr(&mut self, site_addr: SiteAddr)
        ensures
            final(self).addr() == site_addr,
            final(self).agrees_except(old(self), set![StatePart::SiteAddr]),
    {
        self.site_addr = site_addr;
    }

    /// Sets the peers given at launch.
    pub fn init_cli_peer_addrs(&mut self, cli_peer_addrs: Vec<SiteAddr>)
        ensures
            final(self).cli_peers() == cli_peer_addrs@,
            final(self).agrees_except(old(self), set![StatePart::CliPeers]),
    {
        self.cli_peer_addrs = cli_peer_addrs;
    }

    /// Sets the logical clocks.
    pub fn init_clock(&mut self, clock: Clock)
        ensures
            final(self).clock() == clock,
            final(self).agrees_except(old(self), set![StatePart::Clocks]),
    {
        self.clocks = clock;
    }

    /// Sets whether a synchronization is needed.
    pub fn init_sync(&mut self, sync_needed: bool)
        ensures
            final(self).sync() == sync_needed,
            final(self).agrees_except(old(self), set![StatePart::Sync]),
    {
        self.sync_needed = sync_needed;
    }

    /// Whether a synchronization is needed.
    pub fn get_sync(&self) -> (b: bool)
        ensures
            b == self.sync(),
    {
        self.sync_needed
    }

    /// Sets the number of neighbours expected at launch.
    pub fn init_nb_first_attended_neighbours(&mut self, nb: i64)
        ensures
            final(self).first_attended() == nb,
            final(self).agrees_except(old(self), set![StatePart::FirstAttended]),
    {
        self.nb_first_attended_neighbours = nb;
    }

    /// The number of neighbours expected at launch.
    pub fn get_nb_first_attended_neighbours(&self) -> (n: i64)
        ensures
            n == self.first_attended(),
    {
        self.nb_first_attended_neighbours
    }

    /// Makes the site the parent of its own waves.
    pub fn init_parent_addr_for_transaction_wave(&mut self)
        ensures
            final(self).parents() == old(self).parents().insert(old(self).id(), old(self).addr()),
            final(self).agrees_except(old(self), set![StatePart::Parents]),
    {
        self.parent_addr_for_transaction_wave.insert(self.site_id.clone(), self.site_addr);
    }

    /// Adds a neighbour that connected to this site, merging its clock into the local
    /// one; nothing changes where the neighbour is already connected.
    pub fn add_incomming_peer(&mut self, new_addr: SiteAddr, new_socket: SiteAddr, received_clock: Clock)
        requires
            received_clock.lamport() < i64::MAX,
            old(self).clock().lamport() < i64::MAX,
            get_or(
                merge_max(old(self).clock().vector(), received_clock.vector()),
                old(self).id(),
                0i64,
            ) < i64::MAX,
        ensures
            final(self).connected().contains(new_addr),
            old(self).connected().contains(new_addr) ==> final(self).agrees_except(old(self), set![]),
            !old(self).connected().contains(new_addr) ==> {
                let merged = merge_max(old(self).clock().vector(), received_clock.vector());
                &&& final(self).connected() == old(self).connected().push(new_addr)
                &&& final(self).clock().lamport() == crate::clock::max_int(
                    old(self).clock().lamport() as int,
                    received_clock.lamport() as int,
                ) + 1
                &&& final(self).clock().vector() == merged.insert(
                    old(self).id(),
                    (get_or(merged, old(self).id(), 0i64) + 1) as i64,
                )
                &&& final(self).sockets() == old(self).sockets().insert(new_socket, new_addr)
                &&& final(self).agrees_except(
                    old(self),
                    set![StatePart::Connected, StatePart::Clocks, StatePart::Sockets],
                )
            },
    {
        if !self.is_connected(&new_addr) {
            self.connected_neighbours_addrs.push(new_addr);
            assert(self.connected()[self.connected().len() - 1] == new_addr);
            self.clocks.update_clock(self.site_id.as_str(), Some(&received_clock));
            self.neighbours_socket.insert(new_socket, new_addr);
        }
    }

    /// Whether an address is among the connected neighbours.
    pub fn is_connected(&self, addr: &SiteAddr) -> (b: bool)
        ensures
            b == self.connected().contains(*addr),
    {
        let mut i: usize = 0;
        while i < self.connected_neighbours_addrs.len()
            invariant
                i <= self.connected_neighbours_addrs.len(),
                forall|j: int| 0 <= j < i ==> self.connected()[j] != *addr,
            decreases self.connected_neighbours_addrs.len() - i,
        {
            if self.connected_neighbours_addrs[i] == *addr {
                assert(self.connected()[i as int] == *addr);
                return true;
            }
            i += 1;
        }
        false
    }

    /// Position of an address among the connected neighbours.
    fn connected_position(&self, addr: &SiteAddr) -> (r: Option<usize>)
        ensures
            r is None <==> !self.connected().contains(*addr),
            r matches Some(i) ==> i < self.connected().len() && self.connected()[i as int] == *addr
                && forall|j: int| 0 <= j < i ==> self.connected()[j] != *addr,
    {
        let mut i: usize = 0;
        while i < self.connected_neighbours_addrs.len()
            invariant
                i <= self.connected_neighbours_addrs.len(),
                forall|j: int| 0 <= j < i ==> self.connected()[j] != *addr,
            decreases self.connected_neighbours_addrs.len() - i,
        {
            if self.connected_neighbours_addrs[i] == *addr {
                return Some(i);
            }
            i += 1;
        }
        None
    }

    /// Forgets a neighbour: it leaves the connected ones (its first occurrence), and
    /// where its site identifier is known, the site's queue entry, wave bookkeeping and
    /// identifier go too. Its clock counter stays. Nothing changes for an address that
    /// is not connected.
    pub fn remove_peer(&mut self, addr_to_remove: SiteAddr)
        ensures
            old(self).connected().no_duplicates() ==> !final(self).connected().contains(addr_to_remove),
            !old(self).connected().contains(addr_to_remove) ==> final(self).agrees_except(old(self), set![]),
            old(self).connected().contains(addr_to_remove) ==> {
                let i = old(self).connected().index_of_first(addr_to_remove)->0;
                &&& final(self).connected() == old(self).connected().remove(i)
                &&& old(self).site_ids().contains_key(addr_to_remove) ==> {
                    let id = old(self).site_ids()[addr_to_remove]@;
                    &&& final(self).fifo() == old(self).fifo().remove(id)
                    &&& final(self).attended() == old(self).attended().remove(id)
                    &&& final(self).parents() == old(self).parents().remove(id)
                    &&& final(self).site_ids() == old(self).site_ids().remove(addr_to_remove)
                    &&& final(self).agrees_except(
                        old(self),
                        set![StatePart::Connected, StatePart::Fifo, StatePart::Attended, StatePart::Parents, StatePart::SiteIds],
                    )
                }
                &&& !old(self).site_ids().contains_key(addr_to_remove) ==> final(self).agrees_except(
                    old(self),
                    set![StatePart::Connected],
                )
            },
    {
        if let Some(pos) = self.connected_position(&addr_to_remove) {
            proof {
                let s = old(self).connected();
                let f = s.index_of_first(addr_to_remove);
                s.index_of_first_ensures(addr_to_remove);
                assert(f->0 == pos as int);
            }
            self.connected_neighbours_addrs.remove(pos);
            let site_id = match self.site_ids_to_adr.get(&addr_to_remove) {
                Some(id) => Some(id.clone()),
                None => None,
            };
            if let Some(site_id) = site_id {
                self.global_mutex_fifo.remove(site_id.as_str());
                self.attended_neighbours_nb_for_transaction_wave.remove(site_id.as_str());
                self.parent_addr_for_transaction_wave.remove(site_id.as_str());
                self.site_ids_to_adr.remove(&addr_to_remove);
            }
        }
    }

    /// Forgets the neighbour behind a closed socket, as `remove_peer` does; nothing
    /// changes for an unknown socket.
    pub fn remove_peer_from_socket_closed(&mut self, socket_to_remove: SiteAddr)
        ensures
            !old(self).sockets().contains_key(socket_to_remove) ==> final(self).agrees_except(
                old(self),
                set![],
            ),
            old(self).sockets().contains_key(socket_to_remove) ==> {
                let a = old(self).sockets()[socket_to_remove];
                &&& !old(self).connected().contains(a) ==> final(self).agrees_except(old(self), set![])
                &&& old(self).connected().contains(a) ==> final(self).connected() == old(self).connected().remove(
                    old(self).connected().index_of_first(a)->0,
                )
                &&& (old(self).connected().contains(a) && old(self).site_ids().contains_key(a)) ==> {
                    let id = old(self).site_ids()[a]@;
                    &&& final(self).fifo() == old(self).fifo().remove(id)
                    &&& final(self).attended() == old(self).attended().remove(id)
                    &&& final(self).parents() == old(self).parents().remove(id)
                    &&& final(self).site_ids() == old(self).site_ids().remove(a)
                    &&& final(self).agrees_except(
                        old(self),
                        set![StatePart::Connected, StatePart::Fifo, StatePart::Attended, StatePart::Parents, StatePart::SiteIds],
                    )
                }
                &&& (old(self).connected().contains(a) && !old(self).site_ids().contains_key(a))
                    ==> final(self).agrees_except(old(self), set![StatePart::Connected])
            },
    {
        let addr = match self.neighbours_socket.get(&socket_to_remove) {
            Some(a) => *a,
            None => {
                return;
            },
        };
        self.remove_peer(addr);
    }

    /// The address of the site.
    pub fn get_site_addr(&self) -> (a: SiteAddr)
        ensures
            a == self.addr(),
    {
        self.site_addr
    }

    /// The identifier of the site.
    pub fn get_site_id(&self) -> (s: String)
        ensures
            s@ == self.id(),
    {
        self.site_id.clone()
    }

    /// The peers given at launch.
    pub fn get_cli_peers_addrs(&self) -> (v: Vec<SiteAddr>)
        ensures
            v@ == self.cli_peers(),
    {
        self.cli_peer_addrs.clone()
    }

    /// The connected neighbours.
    pub fn get_connected_nei_addr(&self) -> (v: Vec<SiteAddr>)
        ensures
            v@ == self.connected(),
    {
        self.connected_neighbours_addrs.clone()
    }

    /// Adds a connected neighbour (even one that is already there).
    pub fn add_connected_neighbour(&mut self, addr: SiteAddr)
        ensures
            final(self).connected() == old(self).connected().push(addr),
            final(self).agrees_except(old(self), set![StatePart::Connected]),
    {
        self.connected_neighbours_addrs.push(addr);
    }

    /// A copy of the logical clocks.
    pub fn get_clock(&self) -> (c: Clock)
        ensures
            c.lamport() == self.clock().lamport(),
            c.vector() == self.clock().vector(),
            c.vector_values() == self.clock().vector_values(),
    {
        self.clocks.duplicate()
    }

    /// Sets the number of answers expected for the wave of `initiator_id`.
    pub fn set_nb_nei_for_wave(&mut self, initiator_id: String, n: i64)
        ensures
            final(self).attended() == old(self).attended().insert(initiator_id@, n),
            final(self).agrees_except(old(self), set![StatePart::Attended]),
    {
        self.attended_neighbours_nb_for_transaction_wave.insert(initiator_id, n);
    }

    /// A copy of the parent of each wave.
    pub fn get_parent_for_wave_map(&self) -> (m: SiteMap<SiteAddr>)
        ensures
            m@ == self.parents(),
    {
        self.parent_addr_for_transaction_wave.copied()
    }

    /// A copy of the number of answers expected for each wave.
    pub fn get_nb_nei_for_wave(&self) -> (m: SiteMap<i64>)
        ensures
            m@ == self.attended(),
    {
        self.attended_neighbours_nb_for_transaction_wave.copied()
    }

    /// The parent of the wave of `initiator_id`, or `0.0.0.0:0` where it has none.
    pub fn get_parent_addr_for_wave(&self, initiator_id: String) -> (a: SiteAddr)
        ensures
            a == get_or(self.parents(), initiator_id@, SiteAddr::V4 { ip: 0, port: 0 }),
    {
        match self.parent_addr_for_transaction_wave.get(initiator_id.as_str()) {
            Some(a) => *a,
            None => SiteAddr::unspecified(),
        }
    }

    /// Sets the parent of the wave of `initiator_id`.
    pub fn set_parent_addr(&mut self, initiator_id: String, peer_adr: SiteAddr)
        ensures
            final(self).parents() == old(self).parents().insert(initiator_id@, peer_adr),
            final(self).agrees_except(old(self), set![StatePart::Parents]),
    {
        self.parent_addr_for_transaction_wave.insert(initiator_id, peer_adr);
    }

    /// The number of connected neighbours.
    pub fn get_nb_connected_neighbours(&self) -> (n: i64)
        requires
            self.connected().len() <= i64::MAX,
        ensures
            n == self.connected().len(),
    {
        self.connected_neighbours_addrs.len() as i64
    }

    /// Records a local event, after taking in the clock of a received message if there is one.
    pub fn update_clock(&mut self, received_vc: Option<&Clock>)
        requires
            received_vc matches Some(rc) ==> rc.lamport() < i64::MAX,
            old(self).clock().lamport() < i64::MAX,
            get_or(
                match received_vc {
                    Some(rc) => merge_max(old(self).clock().vector(), rc.vector()),
                    None => old(self).clock().vector(),
                },
                old(self).id(),
                0i64,
            ) < i64::MAX,
        ensures
            final(self).clock().lamport() == match received_vc {
                Some(rc) => crate::clock::max_int(old(self).clock().lamport() as int, rc.lamport() as int) + 1,
                None => old(self).clock().lamport() + 1,
            },
            ({
                let merged = match received_vc {
                    Some(rc) => merge_max(old(self).clock().vector(), rc.vector()),
                    None => old(self).clock().vector(),
                };
                final(self).clock().vector() == merged.insert(
                    old(self).id(),
                    (get_or(merged, old(self).id(), 0i64) + 1) as i64,
                )
            }),
            final(self).agrees_except(old(self), set![StatePart::Clocks]),
    {
        self.clocks.update_clock(self.site_id.as_str(), received_vc);
    }

    /// The queue without its releases.
    fn drop_releases(&mut self)
        ensures
            final(self).fifo() == without_releases(old(self).fifo()),
            final(self).agrees_except(old(self), set![StatePart::Fifo]),
    {
        let ghost q = self.global_mutex_fifo@;
        let ghost p = self.global_mutex_fifo.pairs();
        proof {
            use_type_invariant(&self.global_mutex_fifo);
        }
        let n = self.global_mutex_fifo.len();
        let mut kept: SiteMap<MutexStamp> = SiteMap::new();
        let mut i: usize = 0;
        assert(without_releases(pairs_to_map(p.take(0))) =~= Map::<Seq<char>, MutexStamp>::empty());
        while i < n
            invariant
                n == p.len(),
                p == self.global_mutex_fifo.pairs(),
                q == self.global_mutex_fifo@,
                self.global_mutex_fifo.keys().no_duplicates(),
                i <= n,
                kept@ == without_releases(pairs_to_map(p.take(i as int))),
            decreases n - i,
        {
            let id = self.global_mutex_fifo.key_at(i);
            let stamp = *self.global_mutex_fifo.value_at(i);
            proof {
                lemma_prefix_step(p, i as int);
            }
            if stamp.tag != MutexTag::Release {
                kept.insert(id.clone(), stamp);
            }
            assert(kept@ =~= without_releases(pairs_to_map(p.take(i as int + 1))));
            i += 1;
        }
        proof {
            lemma_take_all(p);
        }
        self.global_mutex_fifo = kept;
    }

    /// Enters the critical section where the site waits for it and its request comes
    /// first in the queue (by date, then by site identifier, among requests); the
    /// releases then leave the queue. Returns whether it entered; otherwise nothing
    /// changes.
    pub fn try_enter_sc(&mut self) -> (entered: bool)
        ensures
            entered == (old(self).waiting() && may_enter(old(self).fifo(), old(self).id())),
            entered ==> {
                &&& !final(self).waiting()
                &&& final(self).critical()
                &&& final(self).fifo() == without_releases(old(self).fifo())
                &&& final(self).agrees_except(
                    old(self),
                    set![StatePart::Waiting, StatePart::InSc, StatePart::Fifo],
                )
            },
            !entered ==> final(self).agrees_except(old(self), set![]),
    {
        if !self.waiting_sc {
            return false;
        }
        let my_stamp = match self.global_mutex_fifo.get(self.site_id.as_str()) {
            Some(s) => *s,
            None => {
                return false;
            },
        };
        let ghost f = self.fifo();
        let ghost me = self.id();
        let ghost p = self.global_mutex_fifo.pairs();
        proof {
            use_type_invariant(&self.global_mutex_fifo);
            self.global_mutex_fifo.lemma_distinct();
        }
        let n = self.global_mutex_fifo.len();
        let mut ok = true;
        let mut i: usize = 0;
        while i < n
            invariant
                n == p.len(),
                p == self.global_mutex_fifo.pairs(),
                f == self.global_mutex_fifo@,
                me == self.site_id@,
                f.contains_key(me),
                my_stamp == f[me],
                i <= n,
                forall|j: int|
                    0 <= j < p.len() ==> #[trigger] f.contains_key(p[j].0) && f[p[j].0] == p[j].1,
                ok == forall|j: int|
                    0 <= j < i ==> (p[j].0 == me || p[j].1.tag != MutexTag::Request || stamp_le(
                        my_stamp.date,
                        me,
                        p[j].1.date,
                        p[j].0,
                    )),
            decreases n - i,
        {
            let id = self.global_mutex_fifo.key_at(i);
            let stamp = *self.global_mutex_fifo.value_at(i);
            let fine = if *id == self.site_id {
                true
            } else {
                match stamp.tag {
                    MutexTag::Request => my_stamp.date < stamp.date || (my_stamp.date == stamp.date
                        && str_le(self.site_id.as_str(), id.as_str())),
                    _ => true,
                }
            };
            ok = ok && fine;
            i += 1;
        }
        proof {
            let keys = self.global_mutex_fifo.keys();
            if ok {
                assert forall|k: Seq<char>|
                    #[trigger] f.contains_key(k) && k != me && f[k].tag == MutexTag::Request implies stamp_le(
                        f[me].date,
                        me,
                        f[k].date,
                        k,
                    ) by {
                    let j = keys.index_of(k);
                    assert(keys[j] == p[j].0);
                }
            } else {
                let j = choose|j: int|
                    0 <= j < n && !(p[j].0 == me || p[j].1.tag != MutexTag::Request || stamp_le(
                        my_stamp.date,
                        me,
                        p[j].1.date,
                        p[j].0,
                    ));
                assert(f.contains_key(p[j].0));
            }
        }
        if ok {
            self.waiting_sc = false;
            self.in_sc = true;
            self.drop_releases();
        }
        ok
    }

    /// Records the request of another site for the critical section, then tries to enter
    /// it. Returns whether this site entered.
    pub fn on_mutex_request(&mut self, sender_id: String, date: i64) -> (entered: bool)
        ensures
            ({
                let f = old(self).fifo().insert(
                    sender_id@,
                    MutexStamp { tag: MutexTag::Request, date },
                );
                &&& entered == (old(self).waiting() && may_enter(f, old(self).id()))
                &&& entered ==> !final(self).waiting() && final(self).critical() && final(self).fifo()
                    == without_releases(f)
                &&& !entered ==> final(self).fifo() == f && final(self).waiting() == old(self).waiting()
                    && final(self).critical() == old(self).critical()
            }),
            final(self).agrees_except(
                old(self),
                set![StatePart::Waiting, StatePart::InSc, StatePart::Fifo],
            ),
    {
        self.global_mutex_fifo.insert(sender_id, MutexStamp { tag: MutexTag::Request, date });
        self.try_enter_sc()
    }

    /// Records the acknowledgement of another site, then tries to enter the critical
    /// section. Returns whether this site entered.
    pub fn on_mutex_ack(&mut self, sender_id: String, date: i64) -> (entered: bool)
        ensures
            ({
                let f = old(self).fifo().insert(sender_id@, MutexStamp { tag: MutexTag::Ack, date });
                &&& entered == (old(self).waiting() && may_enter(f, old(self).id()))
                &&& entered ==> !final(self).waiting() && final(self).critical() && final(self).fifo()
                    == without_releases(f)
                &&& !entered ==> final(self).fifo() == f && final(self).waiting() == old(self).waiting()
                    && final(self).critical() == old(self).critical()
            }),
            final(self).agrees_except(
                old(self),
                set![StatePart::Waiting, StatePart::InSc, StatePart::Fifo],
            ),
    {
        self.global_mutex_fifo.insert(sender_id, MutexStamp { tag: MutexTag::Ack, date });
        self.try_enter_sc()
    }

    /// Forgets the entry of a site that released the critical section, then tries to
    /// enter it. Returns whether this site entered.
    pub fn on_mutex_release(&mut self, sender_id: &str) -> (entered: bool)
        ensures
            ({
                let f = old(self).fifo().remove(sender_id@);
                &&& entered == (old(self).waiting() && may_enter(f, old(self).id()))
                &&& entered ==> !final(self).waiting() && final(self).critical() && final(self).fifo()
                    == without_releases(f)
                &&& !entered ==> final(self).fifo() == f && final(self).waiting() == old(self).waiting()
                    && final(self).critical() == old(self).critical()
            }),
            final(self).agrees_except(
                old(self),
                set![StatePart::Waiting, StatePart::InSc, StatePart::Fifo],
            ),
    {
        self.global_mutex_fifo.remove(sender_id);
        self.try_enter_sc()
    }

    /// Asks for the critical section: records a local event, queues the site's request
    /// with its new Lamport date and starts a wave from this site. With neighbours, the
    /// site then waits (and the request is to be spread: the result is `true`); without,
    /// it enters at once.
    pub fn acquire_mutex(&mut self) -> (diffuse: bool)
        requires
            old(self).clock().lamport() < i64::MAX,
            get_or(old(self).clock().vector(), old(self).id(), 0i64) < i64::MAX,
            old(self).connected().len() <= i64::MAX,
        ensures
            diffuse == (old(self).connected().len() > 0),
            final(self).clock().lamport() == old(self).clock().lamport() + 1,
            final(self).clock().vector() == old(self).clock().vector().insert(
                old(self).id(),
                (get_or(old(self).clock().vector(), old(self).id(), 0i64) + 1) as i64,
            ),
            final(self).fifo() == old(self).fifo().insert(
                old(self).id(),
                MutexStamp { tag: MutexTag::Request, date: (old(self).clock().lamport() + 1) as i64 },
            ),
            final(self).parents() == old(self).parents().insert(old(self).id(), old(self).addr()),
            final(self).attended() == old(self).attended().insert(
                old(self).id(),
                old(self).connected().len() as i64,
            ),
            final(self).waiting() == diffuse,
            final(self).critical() == !diffuse,
            final(self).agrees_except(
                old(self),
                set![StatePart::Clocks, StatePart::Fifo, StatePart::Parents, StatePart::Attended, StatePart::Waiting, StatePart::InSc],
            ),
    {
        self.update_clock(None);
        let date = self.clocks.get_lamport();
        self.global_mutex_fifo.insert(self.site_id.clone(), MutexStamp { tag: MutexTag::Request, date });
        let nb = self.get_nb_connected_neighbours();
        self.set_parent_addr(self.site_id.clone(), self.site_addr);
        self.set_nb_nei_for_wave(self.site_id.clone(), nb);
        if nb > 0 {
            self.in_sc = false;
            self.waiting_sc = true;
            true
        } else {
            self.in_sc = true;
            self.waiting_sc = false;
            false
        }
    }

    /// Releases the critical section: records a local event, drops the site's entry from
    /// the queue, leaves the critical section and starts a wave from this site. Returns
    /// whether the release is to be spread (whether the site has neighbours).
    pub fn release_mutex(&mut self) -> (diffuse: bool)
        requires
            old(self).clock().lamport() < i64::MAX,
            get_or(old(self).clock().vector(), old(self).id(), 0i64) < i64::MAX,
            old(self).connected().len() <= i64::MAX,
        ensures
            diffuse == (old(self).connected().len() > 0),
            final(self).clock().lamport() == old(self).clock().lamport() + 1,
            final(self).clock().vector() == old(self).clock().vector().insert(
                old(self).id(),
                (get_or(old(self).clock().vector(), old(self).id(), 0i64) + 1) as i64,
            ),
            final(self).fifo() == old(self).fifo().remove(old(self).id()),
            final(self).parents() == old(self).parents().insert(old(self).id(), old(self).addr()),
            final(self).attended() == old(self).attended().insert(
                old(self).id(),
                old(self).connected().len() as i64,
            ),
            !final(self).waiting(),
            !final(self).critical(),
            final(self).agrees_except(
                old(self),
                set![StatePart::Clocks, StatePart::Fifo, StatePart::Parents, StatePart::Attended, StatePart::Waiting, StatePart::InSc],
            ),
    {
        self.update_clock(None);
        self.global_mutex_fifo.remove(self.site_id.as_str());
        self.in_sc = false;
        self.waiting_sc = false;
        let nb = self.get_nb_connected_neighbours();
        self.set_parent_addr(self.site_id.clone(), self.site_addr);
        self.set_nb_nei_for_wave(self.site_id.clone(), nb);
        nb > 0
    }

    /// Takes in a transaction of the wave started by `initiator_id`, received from
    /// `sender_addr`. The first time (no parent recorded), the sender becomes the parent
    /// and one answer fewer is expected (starting from the number of neighbours); the
    /// transaction is passed on while answers remain expected. Otherwise the sender is
    /// acknowledged, and where the sender is the parent, the wave is over here: its
    /// bookkeeping is reset to all neighbours expected and no parent.
    pub fn on_transaction_wave(&mut self, initiator_id: &str, sender_addr: SiteAddr) -> (step: WaveStep)
        requires
            old(self).connected().len() <= i64::MAX,
            get_or(old(self).attended(), initiator_id@, old(self).connected().len() as i64) > i64::MIN,
        ensures
            (final(self).attended(), final(self).parents(), step) == wave_next(
                old(self).attended(),
                old(self).parents(),
                old(self).connected().len() as i64,
                initiator_id@,
                sender_addr,
            ),
            final(self).agrees_except(old(self), set![StatePart::Parents, StatePart::Attended]),
    {
        let init = initiator_id.to_string();
        let n = self.get_nb_connected_neighbours();
        let parent = self.get_parent_addr_for_wave(init.clone());
        let mut diffuse = false;
        if parent == SiteAddr::unspecified() {
            self.set_parent_addr(init.clone(), sender_addr);
            let current: i64 = match self.attended_neighbours_nb_for_transaction_wave.get(initiator_id) {
                Some(v) => *v,
                None => n,
            };
            self.set_nb_nei_for_wave(init.clone(), current - 1);
            diffuse = current - 1 > 0;
        }
        if diffuse {
            WaveStep::Diffuse
        } else {
            let parent_addr = self.get_parent_addr_for_wave(init.clone());
            if sender_addr == parent_addr {
                self.set_nb_nei_for_wave(init.clone(), n);
                self.set_parent_addr(init, SiteAddr::unspecified());
                WaveStep::AcknowledgeSender { reset: true }
            } else {
                WaveStep::AcknowledgeSender { reset: false }
            }
        }
    }

    /// Takes in an acknowledgement of the wave started by `initiator_id`: one answer
    /// fewer is expected (starting from the number of neighbours). When none remains,
    /// the wave is complete where this site is its parent (it started it), else the
    /// acknowledgement goes on to the parent; either way the bookkeeping of the wave is
    /// reset to all neighbours expected and no parent.
    pub fn on_transaction_acknowledgement(&mut self, initiator_id: &str) -> (step: AckStep)
        requires
            old(self).connected().len() <= i64::MAX,
            get_or(old(self).attended(), initiator_id@, old(self).connected().len() as i64) > i64::MIN,
        ensures
            (final(self).attended(), final(self).parents(), step) == ack_next(
                old(self).attended(),
                old(self).parents(),
                old(self).addr(),
                old(self).connected().len() as i64,
                initiator_id@,
            ),
            final(self).agrees_except(old(self), set![StatePart::Parents, StatePart::Attended]),
    {
        let init = initiator_id.to_string();
        let n = self.get_nb_connected_neighbours();
        let current: i64 = match self.attended_neighbours_nb_for_transaction_wave.get(initiator_id) {
            Some(v) => *v,
            None => n,
        };
        let left = current - 1;
        self.set_nb_nei_for_wave(init.clone(), left);
        if left == 0 {
            let recorded = match self.parent_addr_for_transaction_wave.get(initiator_id) {
                Some(a) => *a,
                None => SiteAddr::V4 { ip: 0x63636363, port: 0 },
            };
            let step = if recorded == self.site_addr {
                AckStep::WaveComplete
            } else {
                AckStep::ForwardToParent(self.get_parent_addr_for_wave(init.clone()))
            };
            self.set_nb_nei_for_wave(init.clone(), n);
            self.set_parent_addr(init, SiteAddr::unspecified());
            step
        } else {
            AckStep::Waiting
        }
    }

    /// Takes in the acknowledgement of a discovery message: where this site sent the
    /// discovery, the sender becomes a connected neighbour and every wave expects one
    /// answer more. Returns whether it was taken in.
    pub fn on_acknowledgment(&mut self, initiator_addr: SiteAddr, sender_addr: SiteAddr) -> (taken: bool)
        requires
            forall|k: Seq<char>| #[trigger]
                old(self).attended().contains_key(k) ==> old(self).attended()[k] < i64::MAX,
        ensures
            taken == (initiator_addr == old(self).addr()),
            taken ==> final(self).connected() == old(self).connected().push(sender_addr)
                && final(self).attended() == Map::new(
                |k: Seq<char>| old(self).attended().contains_key(k),
                |k: Seq<char>| (old(self).attended()[k] + 1) as i64,
            ) && final(self).agrees_except(old(self), set![StatePart::Connected, StatePart::Attended]),
            !taken ==> final(self).agrees_except(old(self), set![]),
    {
        if initiator_addr != self.site_addr {
            return false;
        }
        self.connected_neighbours_addrs.push(sender_addr);
        let ghost a = self.attended();
        let ghost p = self.attended_neighbours_nb_for_transaction_wave.pairs();
        proof {
            use_type_invariant(&self.attended_neighbours_nb_for_transaction_wave);
            assert(a == old(self).attended());
            assert forall|k: Seq<char>| #[trigger] a.contains_key(k) implies a[k] < i64::MAX by {
                assert(old(self).attended().contains_key(k));
            }
        }
        let n = self.attended_neighbours_nb_for_transaction_wave.len();
        let mut bumped: SiteMap<i64> = SiteMap::new();
        let mut i: usize = 0;
        assert(pairs_to_map(p.take(0)) =~= Map::<Seq<char>, i64>::empty());
        while i < n
            invariant
                n == p.len(),
                p == self.attended_neighbours_nb_for_transaction_wave.pairs(),
                a == self.attended_neighbours_nb_for_transaction_wave@,
                self.attended_neighbours_nb_for_transaction_wave.keys().no_duplicates(),
                forall|k: Seq<char>| #[trigger] a.contains_key(k) ==> a[k] < i64::MAX,
                i <= n,
                bumped@ == Map::new(
                    |k: Seq<char>| pairs_to_map(p.take(i as int)).contains_key(k),
                    |k: Seq<char>| (pairs_to_map(p.take(i as int))[k] + 1) as i64,
                ),
            decreases n - i,
        {
            let id = self.attended_neighbours_nb_for_transaction_wave.key_at(i);
            let v = *self.attended_neighbours_nb_for_transaction_wave.value_at(i);
            proof {
                lemma_prefix_step(p, i as int);
                self.attended_neighbours_nb_for_transaction_wave.lemma_distinct();
                assert(a.contains_key(p[i as int].0));
            }
            bumped.insert(id.clone(), v + 1);
            assert(bumped@ =~= Map::new(
                |k: Seq<char>| pairs_to_map(p.take(i as int + 1)).contains_key(k),
                |k: Seq<char>| (pairs_to_map(p.take(i as int + 1))[k] + 1) as i64,
            ));
            i += 1;
        }
        proof {
            lemma_take_all(p);
        }
        self.attended_neighbours_nb_for_transaction_wave = bumped;
        assert(self.attended() =~= Map::new(
            |k: Seq<char>| a.contains_key(k),
            |k: Seq<char>| (a[k] + 1) as i64,
        ));
        true
    }

    /// Takes in a discovery message: where the sender is one of the peers given at
    /// launch, it becomes a connected neighbour (unless it already is) and is to be
    /// answered (the result is `true`).
    pub fn on_discovery(&mut self, sender_addr: SiteAddr) -> (answer: bool)
        ensures
            answer == old(self).cli_peers().contains(sender_addr),
            answer && !old(self).connected().contains(sender_addr) ==> final(self).connected()
                == old(self).connected().push(sender_addr),
            !(answer && !old(self).connected().contains(sender_addr)) ==> final(self).connected()
                == old(self).connected(),
            final(self).agrees_except(old(self), set![StatePart::Connected]),
    {
        let mut known = false;
        let mut i: usize = 0;
        while i < self.cli_peer_addrs.len()
            invariant
                i <= self.cli_peer_addrs.len(),
                known == exists|j: int| 0 <= j < i && self.cli_peers()[j] == sender_addr,
            decreases self.cli_peer_addrs.len() - i,
        {
            if self.cli_peer_addrs[i] == sender_addr {
                known = true;
            }
            i += 1;
        }
        if !known {
            return false;
        }
        if !self.is_connected(&sender_addr) {
            self.connected_neighbours_addrs.push(sender_addr);
        }
        true
    }

    /// Replaces the connected neighbours by `nb` copies of `127.0.0.1:8081` (for tests).
    pub fn set_nb_connected_neighbours(&mut self, nb: i64)
        ensures
            final(self).connected().len() == if nb > 0 { nb as int } else { 0 },
            forall|i: int|
                0 <= i < final(self).connected().len() ==> final(self).connected()[i] == (SiteAddr::V4 {
                    ip: 0x7f000001,
                    port: 8081,
                }),
            final(self).agrees_except(old(self), set![StatePart::Connected]),
    {
        let mut v: Vec<SiteAddr> = Vec::new();
        let mut i: i64 = 0;
        while i < nb
            invariant
                0 <= i,
                nb > 0 ==> i <= nb,
                nb <= 0 ==> i == 0,
                v.len() == i,
                forall|j: int| 0 <= j < v.len() ==> v@[j] == (SiteAddr::V4 { ip: 0x7f000001, port: 8081 }),
            decreases nb - i,
        {
            v.push(SiteAddr::V4 { ip: 0x7f000001, port: 8081 });
            i += 1;
        }
        self.connected_neighbours_addrs = v;
    }
}

} // verus!

//! Peers and the peer registry: a duplicate-free, monotonically growing set
//! of known peer addresses, merged from what other nodes announce.

use vstd::prelude::*;

verus! {

/// What a peer last announced about its own reachability. The tag is carried
/// and compared but never probed or updated by the reconciliation logic.
#[derive(Debug, Clone, Copy, PartialEq, Eq, Structural)]
pub enum Liveness {
    Live,
    Failed,
    Unknown,
}

/// The mathematical content of a peer entry.
#[verifier::ext_equal]
pub struct PeerView {
    pub address: Seq<char>,
    pub liveness: Liveness,
}

/// A known peer: a network endpoint identifier and its announced liveness.
/// Two peers are equal when both fields match.
#[derive(Debug)]
pub struct Peer {
    pub address: String,
    pub liveness: Liveness,
}

impl View for Peer {
    type V = PeerView;

    open spec fn view(&self) -> PeerView {
        PeerView { address: self.address@, liveness: self.liveness }
    }
}

impl Peer {
    /// Build a peer entry from an address and a liveness tag.
    pub fn new(address: &str, liveness: Liveness) -> (p: Peer)
        ensures
            p@.address == address@,
            p@.liveness == liveness,
    {
        Peer { address: address.to_owned(), liveness }
    }
}

impl Clone for Peer {
    /// The copy carries the same address and liveness as the original.
    fn clone(&self) -> (r: Self)
        ensures
            r@ == self@,
    {
        let r = Peer { address: self.address.clone(), liveness: self.liveness };
        proof {
            assert(r@ =~= self@);
        }
        r
    }
}

impl PartialEq for Peer {
    fn eq(&self, other: &Peer) -> (r: bool) {
        let r = self.address == other.address && self.liveness == other.liveness;
        proof {
            if self.address@ == other.address@ && self.liveness == other.liveness {
                assert(self@ =~= other@);
            }
        }
        r
    }
}

impl vstd::std_specs::cmp::PartialEqSpecImpl for Peer {
    open spec fn obeys_eq_spec() -> bool {
        true
    }

    open spec fn eq_spec(&self, other: &Peer) -> bool {
        self@ == other@
    }
}

impl Eq for Peer {

}

/// The contents of a list of peers.
pub open spec fn views_of_peers(s: Seq<Peer>) -> Seq<PeerView> {
    Seq::new(s.len(), |i: int| s[i]@)
}

/// Whether the entry's address is one of this node's own addresses.
pub open spec fn spec_is_self_address(p: PeerView, self_addrs: Seq<Seq<char>>) -> bool {
    exists|i: int| 0 <= i < self_addrs.len() && self_addrs[i] == p.address
}

/// Check if the peer's address is one of this node's own addresses.
pub fn check_is_self_address(peer: &Peer, self_addrs: &Vec<String>) -> (r: bool)
    ensures
        r == spec_is_self_address(peer@, self_addrs.deep_view()),
{
    let mut i: usize = 0;
    while i < self_addrs.len()
        invariant
            i <= self_addrs@.len(),
            forall|j: int| 0 <= j < i ==> self_addrs.deep_view()[j] != peer@.address,
        decreases self_addrs@.len() - i,
    {
        if self_addrs[i] == peer.address {
            proof {
                assert(self_addrs.deep_view()[i as int] == peer@.address);
            }
            return true;
        }
        i = i + 1;
    }
    false
}

/// One step of the registry merge: the entry is appended unless it carries
/// one of the node's own addresses or an equal entry is already present.
pub open spec fn merge_step(
    own: Seq<PeerView>,
    p: PeerView,
    self_addrs: Seq<Seq<char>>,
) -> Seq<PeerView> {
    if spec_is_self_address(p, self_addrs) || own.contains(p) {
        own
    } else {
        own.push(p)
    }
}

/// The registry that results from merging an incoming peer list, first entry
/// first, into the current one.
pub open spec fn spec_merge(
    own: Seq<PeerView>,
    incoming: Seq<PeerView>,
    self_addrs: Seq<Seq<char>>,
) -> Seq<PeerView>
    decreases incoming.len(),
{
    if incoming.len() == 0 {
        own
    } else {
        merge_step(spec_merge(own, incoming.drop_last(), self_addrs), incoming.last(), self_addrs)
    }
}

/// The set of peers this node knows, excluding the node itself. Entries are
/// unique; the set only ever grows.
#[derive(Debug)]
pub struct Peers {
    pub carriers: Vec<Peer>,
}

impl View for Peers {
    type V = Seq<PeerView>;

    open spec fn view(&self) -> Seq<PeerView> {
        views_of_peers(self.carriers@)
    }
}

/// Check whether an equal entry is already in the list.
fn contains_peer(list: &Vec<Peer>, p: &Peer) -> (r: bool)
    ensures
        r == views_of_peers(list@).contains(p@),
{
    let mut i: usize = 0;
    while i < list.len()
        invariant
            i <= list@.len(),
            forall|j: int| 0 <= j < i ==> views_of_peers(list@)[j] != p@,
        decreases list@.len() - i,
    {
        if &list[i] == p {
            proof {
                assert(views_of_peers(list@)[i as int] == p@);
            }
            return true;
        }
        i = i + 1;
    }
    proof {
        assert(!views_of_peers(list@).contains(p@));
    }
    false
}

impl Peers {
    /// An empty registry.
    pub fn new() -> (r: Peers)
        ensures
            r@.len() == 0,
    {
        Peers { carriers: Vec::new() }
    }

    /// Merge an incoming peer list into this registry: each incoming entry is
    /// added unless it carries one of this node's own addresses or an equal
    /// entry is already present. Existing entries are never changed or
    /// removed.
    pub fn compare_and_update(&mut self, other_peers: Peers, self_addrs: &Vec<String>)
        ensures
            final(self)@ == spec_merge(old(self)@, other_peers@, self_addrs.deep_view()),
    {
        let incoming = other_peers.carriers;
        let ghost orig: Seq<PeerView> = self@;
        let ghost inc_views: Seq<PeerView> = views_of_peers(incoming@);
        let mut i: usize = 0;
        while i < incoming.len()
            invariant
                i <= incoming@.len(),
                inc_views == views_of_peers(incoming@),
                self@ == spec_merge(orig, inc_views.take(i as int), self_addrs.deep_view()),
            decreases incoming@.len() - i,
        {
            let carrier = &incoming[i];
            proof {
                assert(inc_views.take(i + 1).drop_last() =~= inc_views.take(i as int));
                assert(inc_views.take(i + 1).last() == carrier@);
            }
            if !check_is_self_address(carrier, self_addrs) {
                if !contains_peer(&self.carriers, carrier) {
                    self.carriers.push(carrier.clone());
                    proof {
                        assert(self@ =~= spec_merge(
                            orig,
                            inc_views.take(i as int),
                            self_addrs.deep_view(),
                        ).push(carrier@));
                    }
                }
            }
            i = i + 1;
        }
        proof {
            assert(inc_views.take(incoming@.len() as int) =~= inc_views);
        }
    }
}

/// The addresses of the registered peers, in registry order.
pub open spec fn spec_peer_addresses(s: Seq<PeerView>) -> Seq<Seq<char>> {
    Seq::new(s.len(), |i: int| s[i].address)
}

/// The peer half of a node: the registry plus the node's own addresses,
/// injected at construction so that the registry never lists the node itself.
#[derive(Debug)]
pub struct PeerService {
    pub peers: Peers,
    pub self_addrs: Vec<String>,
}

impl PeerService {
    /// A peer service with an empty registry for a node reachable under the
    /// given addresses.
    pub fn new(self_addrs: Vec<String>) -> (r: PeerService)
        ensures
            r.peers@.len() == 0,
            r.self_addrs == self_addrs,
    {
        PeerService { peers: Peers::new(), self_addrs }
    }

    /// Merge peers announced by another node into the registry.
    pub fn add_peers(&mut self, other_peers: Peers)
        ensures
            final(self).peers@ == spec_merge(
                old(self).peers@,
                other_peers@,
                old(self).self_addrs.deep_view(),
            ),
            final(self).self_addrs == old(self).self_addrs,
    {
        let addrs = &self.self_addrs;
        self.peers.compare_and_update(other_peers, addrs);
    }

    /// A read-only snapshot of the registry.
    pub fn list_peers(&self) -> (r: &Peers)
        ensures
            r@ == self.peers@,
    {
        &self.peers
    }

    /// The fan-out plan for a gossip message: a publish message goes to every
    /// registered peer, best-effort, so the plan names each peer's address
    /// once, in registry order, with the message content. Query messages
    /// carry no content to push and yield no plan.
    pub fn broadcast(&self, msg: crate::miner::MinerMessage) -> (r: Option<(Vec<String>, Vec<u8>)>)
        ensures
            match msg {
                crate::miner::MinerMessage::PublishLatestBlock(content) => match r {
                    Some(pair) => pair.0.deep_view() == spec_peer_addresses(self.peers@)
                        && pair.1@ == content@,
                    None => false,
                },
                _ => r is None,
            },
    {
        match msg {
            crate::miner::MinerMessage::PublishLatestBlock(content) => {
                let carriers = &self.peers.carriers;
                let mut addrs: Vec<String> = Vec::new();
                let mut i: usize = 0;
                while i < carriers.len()
                    invariant
                        i <= carriers@.len(),
                        views_of_peers(carriers@) == self.peers@,
                        addrs.deep_view() == spec_peer_addresses(self.peers@).take(i as int),
                    decreases carriers@.len() - i,
                {
                    let addr_clone = carriers[i].address.clone();
                    let ghost pre = addrs.deep_view();
                    let ghost pre_vec: Seq<String> = addrs@;
                    addrs.push(addr_clone);
                    proof {
                        assert(addrs@ == pre_vec.push(carriers@[i as int].address));
                        assert(spec_peer_addresses(self.peers@).len() == self.peers@.len());
                        assert(pre.len() == i as int);
                        assert(pre_vec.len() == i as int);
                        let post = addrs.deep_view();
                        let goal = spec_peer_addresses(self.peers@).take(i as int + 1);
                        assert forall|j: int| 0 <= j < post.len() implies post[j] == goal[j] by {
                            assert(post[j] == addrs@[j]@);
                            if j < i {
                                assert(addrs@[j] == pre_vec[j]);
                                assert(pre[j] == pre_vec[j]@);
                                assert(pre[j] == spec_peer_addresses(self.peers@).take(i as int)[j]);
                            } else {
                                assert(addrs@[j] == carriers@[i as int].address);
                                assert(goal[j] == self.peers@[j].address);
                                assert(self.peers@[j] == carriers@[j]@);
                            }
                        }
                        assert(post =~= goal);
                    }
                    i = i + 1;
                }
                proof {
                    assert(spec_peer_addresses(self.peers@).take(carriers@.len() as int)
                        =~= spec_peer_addresses(self.peers@));
                }
                Some((addrs, content))
            },
            _ => None,
        }
    }
}

/// The registry grows monotonically: an entry already present survives any
/// merge; no merge ever removes an entry.
pub proof fn lemma_merge_keeps_own(
    own: Seq<PeerView>,
    incoming: Seq<PeerView>,
    self_addrs: Seq<Seq<char>>,
    p: PeerView,
)
    requires
        own.contains(p),
    ensures
        spec_merge(own, incoming, self_addrs).contains(p),
    decreases incoming.len(),
{
    if incoming.len() > 0 {
        lemma_merge_keeps_own(own, incoming.drop_last(), self_addrs, p);
        let m = spec_merge(own, incoming.drop_last(), self_addrs);
        let j = choose|j: int| 0 <= j < m.len() && m[j] == p;
        assert(m.push(incoming.last())[j] == p);
    }
}

/// Merging entries that are all either the node's own address or already
/// present changes nothing.
proof fn lemma_merge_absorbed(own: Seq<PeerView>, incoming: Seq<PeerView>, self_addrs: Seq<Seq<char>>)
    requires
        forall|j: int| 0 <= j < incoming.len() ==> spec_is_self_address(
            #[trigger] incoming[j],
            self_addrs,
        ) || own.contains(incoming[j]),
    ensures
        spec_merge(own, incoming, self_addrs) == own,
    decreases incoming.len(),
{
    if incoming.len() > 0 {
        assert(forall|j: int| 0 <= j < incoming.drop_last().len() ==> incoming.drop_last()[j]
            == incoming[j]);
        lemma_merge_absorbed(own, incoming.drop_last(), self_addrs);
        assert(incoming.last() == incoming[incoming.len() - 1]);
    }
}

/// After a merge, every incoming entry that does not carry one of the node's
/// own addresses is in the registry.
proof fn lemma_merge_covers(own: Seq<PeerView>, incoming: Seq<PeerView>, self_addrs: Seq<Seq<char>>)
    ensures
        forall|j: int| 0 <= j < incoming.len() ==> spec_is_self_address(
            #[trigger] incoming[j],
            self_addrs,
        ) || spec_merge(own, incoming, self_addrs).contains(incoming[j]),
    decreases incoming.len(),
{
    if incoming.len() > 0 {
        let prefix = incoming.drop_last();
        let q = incoming.last();
        lemma_merge_covers(own, prefix, self_addrs);
        let m = spec_merge(own, prefix, self_addrs);
        let merged = spec_merge(own, incoming, self_addrs);
        assert forall|j: int|
            0 <= j < incoming.len() && !spec_is_self_address(
                incoming[j],
                self_addrs,
            ) implies merged.contains(incoming[j]) by {
            if j < prefix.len() {
                assert(prefix[j] == incoming[j]);
                assert(m.contains(incoming[j]));
                let w = choose|w: int| 0 <= w < m.len() && m[w] == incoming[j];
                if !(spec_is_self_address(q, self_addrs) || m.contains(q)) {
                    assert(m.push(q)[w] == incoming[j]);
                }
            } else {
                assert(incoming[j] == q);
                if m.contains(q) {
                    let w = choose|w: int| 0 <= w < m.len() && m[w] == q;
                    assert(merged[w] == q);
                } else {
                    assert(merged == m.push(q));
                    assert(m.push(q)[m.len() as int] == q);
                }
            }
        }
    }
}

/// Merging the same peer list a second time changes nothing: after the first
/// merge every incoming entry is either the node's own address or already in
/// the registry.
pub proof fn lemma_merge_idempotent(
    own: Seq<PeerView>,
    incoming: Seq<PeerView>,
    self_addrs: Seq<Seq<char>>,
)
    ensures
        spec_merge(spec_merge(own, incoming, self_addrs), incoming, self_addrs) == spec_merge(
            own,
            incoming,
            self_addrs,
        ),
{
    lemma_merge_covers(own, incoming, self_addrs);
    lemma_merge_absorbed(spec_merge(own, incoming, self_addrs), incoming, self_addrs);
}

/// Merging a registry with itself leaves it unchanged: every entry is
/// already present.
pub proof fn lemma_merge_self_is_identity(own: Seq<PeerView>, self_addrs: Seq<Seq<char>>)
    ensures
        spec_merge(own, own, self_addrs) == own,
{
    assert forall|j: int| 0 <= j < own.len() implies own.contains(#[trigger] own[j]) by {
        assert(own[j] == own[j]);
    }
    lemma_merge_absorbed(own, own, self_addrs);
}

/// A peer that carries one of the node's own addresses is never added.
pub proof fn lemma_merge_skips_own_address(
    own: Seq<PeerView>,
    p: PeerView,
    self_addrs: Seq<Seq<char>>,
)
    requires
        spec_is_self_address(p, self_addrs),
    ensures
        spec_merge(own, seq![p], self_addrs) == own,
{
    let single = seq![p];
    assert(single.drop_last() =~= Seq::<PeerView>::empty());
    assert(spec_merge(own, Seq::<PeerView>::empty(), self_addrs) == own);
    assert(single.last() == p);
    assert(spec_merge(own, single, self_addrs) == merge_step(own, p, self_addrs));
}

/// A merge never introduces a duplicate entry: a registry without duplicates
/// stays without duplicates.
pub proof fn lemma_merge_preserves_no_duplicates(
    own: Seq<PeerView>,
    incoming: Seq<PeerView>,
    self_addrs: Seq<Seq<char>>,
)
    requires
        own.no_duplicates(),
    ensures
        spec_merge(own, incoming, self_addrs).no_duplicates(),
    decreases incoming.len(),
{
    if incoming.len() > 0 {
        lemma_merge_preserves_no_duplicates(own, incoming.drop_last(), self_addrs);
        let m = spec_merge(own, incoming.drop_last(), self_addrs);
        let q = incoming.last();
        if !(spec_is_self_address(q, self_addrs) || m.contains(q)) {
            assert forall|a: int, b: int|
                0 <= a < m.push(q).len() && 0 <= b < m.push(q).len() && a != b implies m.push(
                q,
            )[a] != m.push(q)[b] by {
                if b == m.len() {
                    assert(m.push(q)[a] == m[a]);
                    if m[a] == q {
                        assert(m.contains(q));
                    }
                } else if a == m.len() {
                    assert(m.push(q)[b] == m[b]);
                    if m[b] == q {
                        assert(m.contains(q));
                    }
                }
            }
        }
    }
}

} // verus!

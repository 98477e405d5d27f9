use vstd::prelude::*;

use crate::inbound::is_magic_dns;
use crate::packet::{IpAddr, PacketInfo};
use crate::rename::{listed, same_identity};
use crate::roster::EndpointId;

verus! {

/// No peer appears twice.
pub open spec fn distinct_peers(peers: Seq<EndpointId>) -> bool {
    forall|i: int, j: int|
        0 <= i < j < peers.len() ==> #[trigger] peers[i].bytes@ != #[trigger] peers[j].bytes@
}

/// `peers` without `peer`, in order.
pub open spec fn without_peer(peers: Seq<EndpointId>, peer: EndpointId) -> Seq<EndpointId>
    decreases peers.len(),
{
    if peers.len() == 0 {
        Seq::empty()
    } else {
        let earlier = without_peer(peers.drop_last(), peer);
        if peers.last().bytes@ == peer.bytes@ {
            earlier
        } else {
            earlier.push(peers.last())
        }
    }
}

/// What the forwarding loop does with a packet for a roster member it has no
/// live route to.
#[derive(Debug, Clone, Copy, PartialEq, Eq, Structural)]
pub enum DialStep {
    /// Too many dials are outstanding: drop the packet.
    Reject,
    /// Buffer the packet; with `start_dial` also start dialing the peer (no
    /// dial was outstanding for it).
    Buffer { start_dial: bool },
}

/// What the forwarding loop does with one packet read from the TUN.
#[derive(Debug, Clone, Copy, PartialEq, Eq, Structural)]
pub enum PacketAction {
    /// Not IP, truncated, or with a header it refuses to misparse: dropped.
    DropMalformed,
    /// A query to the magic DNS resolver: answered locally, holding one of
    /// the resolver's query slots, and never routed to a peer.
    ResolveDns,
    /// A magic DNS query while every resolver slot is taken: dropped.
    DropDnsConcurrency,
    /// Sent over the live route to its destination (or exit peer).
    Send,
    /// No live route and no roster member to dial for it: dropped.
    DropNoPeer,
    /// No live route, its peer is not being dialed and every dial slot is
    /// taken: dropped without being buffered or dialed.
    DropLazyDialConcurrency,
    /// No live route: buffered for the peer being dialed; with `start_dial`
    /// the dial starts now (none was outstanding for the peer).
    Buffer { start_dial: bool },
}

/// The loop's decision for a packet, in the order the loop checks: the
/// parse (`parsed`), magic DNS with its query slots (`dns_slot_free`), a
/// live route (`route_live`), the roster member to dial (`dial_target`,
/// `None` also when the node has no dialer), and the dials outstanding
/// (`dialing`, at most `cap` of them).
pub open spec fn packet_action(
    dialing: Seq<EndpointId>,
    cap: int,
    parsed: Option<PacketInfo>,
    magic_dns_v6: u128,
    dns_slot_free: bool,
    route_live: bool,
    dial_target: Option<EndpointId>,
) -> PacketAction {
    match parsed {
        None => PacketAction::DropMalformed,
        Some(info) => if info.dst_port == 53 && info.dst_ip == IpAddr::V6(magic_dns_v6) {
            if dns_slot_free {
                PacketAction::ResolveDns
            } else {
                PacketAction::DropDnsConcurrency
            }
        } else if route_live {
            PacketAction::Send
        } else {
            match dial_target {
                None => PacketAction::DropNoPeer,
                Some(peer) => if listed(dialing, peer) {
                    PacketAction::Buffer { start_dial: false }
                } else if dialing.len() >= cap {
                    PacketAction::DropLazyDialConcurrency
                } else {
                    PacketAction::Buffer { start_dial: true }
                },
            }
        },
    }
}

/// The set of peers the forwarding loop is dialing on demand. It holds at
/// most `cap` peers and never the same peer twice, so at most `cap` dials are
/// outstanding and a peer is never dialed twice at once.
pub struct InFlightDials {
    peers: Vec<EndpointId>,
    cap: usize,
}

impl InFlightDials {
    #[verifier::type_invariant]
    spec fn inv(self) -> bool {
        &&& distinct_peers(self.peers@)
        &&& self.peers@.len() <= self.cap
    }

    /// The peers being dialed, oldest first.
    pub closed spec fn dialing(self) -> Seq<EndpointId> {
        self.peers@
    }

    /// The most dials that may be outstanding at once.
    pub closed spec fn cap(self) -> usize {
        self.cap
    }

    /// No dial outstanding, room for `cap`.
    pub fn new(cap: usize) -> (dials: Self)
        ensures
            dials.dialing() == Seq::<EndpointId>::empty(),
            dials.cap() == cap,
            distinct_peers(dials.dialing()),
    {
        InFlightDials { peers: Vec::new(), cap }
    }

    /// The number of outstanding dials.
    /// Never more than `cap`, never one peer twice.
    pub fn len(&self) -> (n: usize)
        ensures
            n == self.dialing().len(),
            n <= self.cap(),
            distinct_peers(self.dialing()),
    {
        proof {
            use_type_invariant(self);
        }
        self.peers.len()
    }

    /// Whether a dial to `peer` is outstanding.
    pub fn is_dialing(&self, peer: &EndpointId) -> (dialing: bool)
        ensures
            dialing == listed(self.dialing(), *peer),
    {
        let mut i: usize = 0;
        while i < self.peers.len()
            invariant
                i <= self.peers@.len(),
                forall|k: int| 0 <= k < i ==> self.peers@[k].bytes@ != peer.bytes@,
            decreases self.peers@.len() - i,
        {
            if same_identity(&self.peers[i], peer) {
                return true;
            }
            i = i + 1;
        }
        false
    }

    /// A packet for `peer` has no live route. If a dial to it is outstanding
    /// the packet is buffered; otherwise, with a free slot, the packet is
    /// buffered and a dial starts (recorded here); with none it is rejected.
    pub fn on_unrouted_packet(&mut self, peer: EndpointId) -> (step: DialStep)
        ensures
            final(self).cap() == old(self).cap(),
            final(self).dialing().len() <= final(self).cap(),
            distinct_peers(final(self).dialing()),
            listed(old(self).dialing(), peer) ==> step == (DialStep::Buffer { start_dial: false })
                && final(self).dialing() == old(self).dialing(),
            !listed(old(self).dialing(), peer) && old(self).dialing().len() >= old(self).cap()
                ==> step == DialStep::Reject && final(self).dialing() == old(self).dialing(),
            !listed(old(self).dialing(), peer) && old(self).dialing().len() < old(self).cap()
                ==> step == (DialStep::Buffer { start_dial: true }) && final(self).dialing()
                == old(self).dialing().push(peer),
    {
        proof {
            use_type_invariant(&*self);
        }
        if self.is_dialing(&peer) {
            proof {
                use_type_invariant(&*self);
            }
            return DialStep::Buffer { start_dial: false };
        }
        if self.peers.len() >= self.cap {
            proof {
                use_type_invariant(&*self);
            }
            return DialStep::Reject;
        }
        let ghost before = self.peers@;
        assert(distinct_peers(before.push(peer)));
        let mut next: Vec<EndpointId> = Vec::new();
        std::mem::swap(&mut next, &mut self.peers);
        next.push(peer);
        self.peers = next;
        proof {
            use_type_invariant(&*self);
        }
        DialStep::Buffer { start_dial: true }
    }

    /// One packet read from the TUN through the forwarding loop's decisions:
    /// see [`packet_action`]. A dial that starts is recorded here; the
    /// caller buffers the packet (dropping the newest once the retention
    /// budget is full), spawns the dial and reports it with
    /// [`InFlightDials::on_dial_done`].
    pub fn on_outbound_packet(
        &mut self,
        parsed: Option<PacketInfo>,
        magic_dns_v6: u128,
        dns_slot_free: bool,
        route_live: bool,
        dial_target: Option<EndpointId>,
    ) -> (action: PacketAction)
        ensures
            action == packet_action(
                old(self).dialing(),
                old(self).cap() as int,
                parsed,
                magic_dns_v6,
                dns_slot_free,
                route_live,
                dial_target,
            ),
            final(self).cap() == old(self).cap(),
            final(self).dialing() == (if action == (PacketAction::Buffer { start_dial: true }) {
                old(self).dialing().push(dial_target.unwrap())
            } else {
                old(self).dialing()
            }),
            final(self).dialing().len() <= final(self).cap(),
            distinct_peers(final(self).dialing()),
    {
        proof {
            use_type_invariant(&*self);
        }
        let info = match parsed {
            None => return PacketAction::DropMalformed,
            Some(info) => info,
        };
        if is_magic_dns(&info, magic_dns_v6) {
            return if dns_slot_free {
                PacketAction::ResolveDns
            } else {
                PacketAction::DropDnsConcurrency
            };
        }
        if route_live {
            return PacketAction::Send;
        }
        let peer = match dial_target {
            None => return PacketAction::DropNoPeer,
            Some(peer) => peer,
        };
        match self.on_unrouted_packet(peer) {
            DialStep::Reject => PacketAction::DropLazyDialConcurrency,
            DialStep::Buffer { start_dial } => PacketAction::Buffer { start_dial },
        }
    }

    /// The dial to `peer` finished (either way): it is no longer outstanding.
    pub fn on_dial_done(&mut self, peer: &EndpointId)
        ensures
            final(self).cap() == old(self).cap(),
            final(self).dialing().len() <= final(self).cap(),
            distinct_peers(final(self).dialing()),
            final(self).dialing() == without_peer(old(self).dialing(), *peer),
            !listed(final(self).dialing(), *peer),
            forall|other: EndpointId|
                other.bytes@ != peer.bytes@ ==> (listed(final(self).dialing(), other) == listed(
                    old(self).dialing(),
                    other,
                )),
    {
        proof {
            use_type_invariant(&*self);
        }
        let ghost old_peers = self.peers@;
        let mut kept: Vec<EndpointId> = Vec::new();
        let mut i: usize = 0;
        while i < self.peers.len()
            invariant
                i <= self.peers@.len(),
                self.peers@ == old_peers,
                distinct_peers(old_peers),
                kept@ == without_peer(old_peers.take(i as int), *peer),
            decreases self.peers@.len() - i,
        {
            assert(old_peers.take(i + 1).drop_last() =~= old_peers.take(i as int));
            if !same_identity(&self.peers[i], peer) {
                kept.push(self.peers[i]);
            }
            i = i + 1;
        }
        assert(old_peers.take(old_peers.len() as int) =~= old_peers);
        proof {
            lemma_without_peer(old_peers, *peer);
        }
        self.peers = kept;
        proof {
            use_type_invariant(&*self);
        }
    }
}

proof fn lemma_without_peer(peers: Seq<EndpointId>, peer: EndpointId)
    requires
        distinct_peers(peers),
    ensures
        distinct_peers(without_peer(peers, peer)),
        without_peer(peers, peer).len() <= peers.len(),
        !listed(without_peer(peers, peer), peer),
        forall|other: EndpointId|
            other.bytes@ != peer.bytes@ ==> (listed(without_peer(peers, peer), other) == listed(
                peers,
                other,
            )),
    decreases peers.len(),
{
    if peers.len() > 0 {
        let rest = peers.drop_last();
        assert(distinct_peers(rest));
        lemma_without_peer(rest, peer);
        let w = without_peer(rest, peer);
        let last = peers.last();
        assert forall|other: EndpointId| listed(rest, other) ==> listed(peers, other) by {
            if listed(rest, other) {
                let i = choose|i: int| 0 <= i < rest.len() && rest[i].bytes@ == other.bytes@;
                assert(peers[i] == rest[i]);
            }
        }
        assert forall|other: EndpointId| listed(peers, other) && other.bytes@ != last.bytes@
            implies listed(rest, other) by {
            let i = choose|i: int| 0 <= i < peers.len() && peers[i].bytes@ == other.bytes@;
            assert(i != peers.len() - 1);
            assert(rest[i] == peers[i]);
        }
        if last.bytes@ != peer.bytes@ {
            let w2 = w.push(last);
            // `last` is not in `rest`, so not in `w`.
            assert(!listed(rest, last)) by {
                if listed(rest, last) {
                    let i = choose|i: int| 0 <= i < rest.len() && rest[i].bytes@ == last.bytes@;
                    assert(peers[i].bytes@ != peers[peers.len() - 1].bytes@);
                }
            }
            assert(!listed(w, last));
            assert forall|i: int, j: int| 0 <= i < j < w2.len() implies #[trigger] w2[i].bytes@
                != #[trigger] w2[j].bytes@ by {
                if j == w2.len() - 1 {
                    assert(w2[i] == w[i]);
                    if w[i].bytes@ == last.bytes@ {
                        assert(listed(w, last));
                    }
                } else {
                    assert(w2[i] == w[i] && w2[j] == w[j]);
                }
            }
            assert forall|other: EndpointId| listed(w2, other) implies listed(w, other)
                || other.bytes@ == last.bytes@ by {
                let i = choose|i: int| 0 <= i < w2.len() && w2[i].bytes@ == other.bytes@;
                if i < w.len() {
                    assert(w2[i] == w[i]);
                }
            }
            assert forall|other: EndpointId| listed(w, other) implies listed(w2, other) by {
                let i = choose|i: int| 0 <= i < w.len() && w[i].bytes@ == other.bytes@;
                assert(w2[i] == w[i]);
            }
            assert(w2[w.len() as int] == last);
            assert(listed(w2, last));
        } else {
            assert forall|other: EndpointId| other.bytes@ != peer.bytes@ && listed(peers, other)
                implies listed(rest, other) by {}
        }
    }
}

/// The forwarding loop never dials more than `cap` peers at once: a packet
/// with no live route whose peer has no dial outstanding while every slot is
/// taken is dropped, neither buffered nor dialed, and a peer already being
/// dialed is never dialed again.
pub proof fn lemma_dial_cap_drops_without_buffering(
    dialing: Seq<EndpointId>,
    cap: int,
    info: PacketInfo,
    magic_dns_v6: u128,
    dns_slot_free: bool,
    peer: EndpointId,
)
    requires
        !(info.dst_port == 53 && info.dst_ip == IpAddr::V6(magic_dns_v6)),
    ensures
        !listed(dialing, peer) && dialing.len() >= cap ==> packet_action(
            dialing,
            cap,
            Some(info),
            magic_dns_v6,
            dns_slot_free,
            false,
            Some(peer),
        ) == PacketAction::DropLazyDialConcurrency,
        listed(dialing, peer) ==> packet_action(
            dialing,
            cap,
            Some(info),
            magic_dns_v6,
            dns_slot_free,
            false,
            Some(peer),
        ) == (PacketAction::Buffer { start_dial: false }),
{
}

} // verus!

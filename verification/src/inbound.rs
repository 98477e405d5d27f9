use vstd::prelude::*;

use crate::packet::{IpAddr, PacketInfo};

verus! {

/// Decision for a datagram received from a peer.
#[derive(Debug, Clone, Copy, PartialEq, Eq, Structural)]
pub enum InboundDecision {
    /// Packet passed the checks and may be written to the TUN.
    Accept,
    /// Dropped by the local firewall. Carries the parsed packet so a fail-fast
    /// REJECT reply can be built without re-parsing.
    DropFirewall(PacketInfo),
    /// Dropped: too large or not a parseable IP packet.
    DropMalformed,
    /// Dropped: the source IP is not the sending peer's mesh address (ingress
    /// anti-spoofing), and the packet is not return traffic from our exit.
    DropSpoof,
    /// Dropped: bound for a non-overlay (internet) destination this node does
    /// not transit for the sender on this network.
    DropExit,
}

/// Where the evaluation of an inbound datagram stands before the firewall:
/// either decided, or waiting on the firewall's verdict for the packet.
#[derive(Debug, Clone, Copy, PartialEq, Eq, Structural)]
pub enum InboundVerdict {
    Decided(InboundDecision),
    /// Addressed to a mesh host: the inbound firewall decides.
    ConsultFirewall(PacketInfo),
}

/// What the address classifiers and the exit-node state say about a parsed
/// inbound packet and its sender.
#[derive(Debug, Clone, Copy, PartialEq, Eq, Structural)]
pub struct InboundFacts {
    /// The source address is in the mesh overlay.
    pub src_is_overlay: bool,
    /// The source address is one the internet could route.
    pub src_is_transitable: bool,
    /// The destination address is in the mesh overlay.
    pub dst_is_overlay: bool,
    /// The destination address is one the internet could route.
    pub dst_is_transitable: bool,
    /// The sender is the exit peer we selected (by identity or mesh address).
    pub sender_is_our_exit: bool,
    /// We offer the sender an exit node on the arrival network.
    pub exit_allows_sender: bool,
    /// The destination is on a network this gateway is directly attached to.
    pub dst_is_on_link: bool,
    /// The destination is one of this host's own addresses.
    pub dst_is_self_addr: bool,
}

/// Whether the source passes ingress anti-spoofing: the peer's own mesh IPv6.
pub open spec fn source_is_sender(info: PacketInfo, peer_ipv6: u128) -> bool {
    info.src_ip == IpAddr::V6(peer_ipv6)
}

/// Exit-node return traffic: from our exit peer, sourced from a routable
/// public (non-overlay) address, and addressed to our own mesh IPv6.
pub open spec fn is_exit_return(info: PacketInfo, my_v6: u128, facts: InboundFacts) -> bool {
    &&& facts.sender_is_our_exit
    &&& !facts.src_is_overlay
    &&& facts.src_is_transitable
    &&& info.dst_ip == IpAddr::V6(my_v6)
}

/// Exit transit is permitted: we offer the sender an exit here, and the
/// destination is internet-reachable, not on the gateway's own link and not
/// the gateway itself.
pub open spec fn transit_permitted(facts: InboundFacts) -> bool {
    &&& facts.exit_allows_sender
    &&& facts.dst_is_transitable
    &&& !facts.dst_is_on_link
    &&& !facts.dst_is_self_addr
}

/// The evaluation of an inbound datagram of `packet_len` bytes, up to the
/// firewall. `parsed` is the packet's parsed header, if it parses.
pub open spec fn inbound_verdict(
    packet_len: int,
    max_packet: int,
    parsed: Option<PacketInfo>,
    peer_ipv6: u128,
    my_v6: u128,
    facts: InboundFacts,
) -> InboundVerdict {
    if packet_len > max_packet {
        InboundVerdict::Decided(InboundDecision::DropMalformed)
    } else {
        match parsed {
            None => InboundVerdict::Decided(InboundDecision::DropMalformed),
            Some(info) => if !source_is_sender(info, peer_ipv6) && !is_exit_return(
                info,
                my_v6,
                facts,
            ) {
                InboundVerdict::Decided(InboundDecision::DropSpoof)
            } else if !facts.dst_is_overlay {
                if transit_permitted(facts) {
                    InboundVerdict::Decided(InboundDecision::Accept)
                } else {
                    InboundVerdict::Decided(InboundDecision::DropExit)
                }
            } else {
                InboundVerdict::ConsultFirewall(info)
            },
        }
    }
}

/// Evaluation of an inbound peer datagram against basic packet validity,
/// ingress anti-spoofing and exit-node transit, ahead of the firewall.
///
/// Oversized or unparseable packets are `DropMalformed`. A source that is not
/// the sender's mesh IPv6 is `DropSpoof`, unless the packet is return traffic
/// from our selected exit peer (public source, addressed to us), which goes on
/// to face the firewall like any other inbound packet. A packet bound for a
/// non-overlay destination is transit: accepted only if we offer the sender an
/// exit and the destination is on the internet proper, else `DropExit`; the
/// firewall is not consulted for transit. Everything else is addressed to a
/// mesh host and goes to the firewall (see [`firewall_decision`]).
pub fn evaluate_inbound(
    packet_len: usize,
    max_packet: usize,
    parsed: Option<PacketInfo>,
    peer_ipv6: u128,
    my_v6: u128,
    facts: &InboundFacts,
) -> (verdict: InboundVerdict)
    ensures
        verdict == inbound_verdict(
            packet_len as int,
            max_packet as int,
            parsed,
            peer_ipv6,
            my_v6,
            *facts,
        ),
{
    if packet_len > max_packet {
        return InboundVerdict::Decided(InboundDecision::DropMalformed);
    }
    let info = match parsed {
        Some(info) => info,
        None => return InboundVerdict::Decided(InboundDecision::DropMalformed),
    };
    // Ingress anti-spoofing: a peer may only inject packets sourced from its
    // own mesh address. An IPv4 source is never a legitimate mesh source.
    let src_ok = match info.src_ip {
        IpAddr::V6(v6) => v6 == peer_ipv6,
        IpAddr::V4(_) => false,
    };
    if !src_ok {
        // Exit-node client return traffic comes back from our exit peer sourced
        // from the host we reached. It is exempt only when the sender is our
        // exit peer, the source is a routable public address, and the packet
        // is addressed to us; it still faces the firewall below.
        let dst_is_me = match info.dst_ip {
            IpAddr::V6(v6) => v6 == my_v6,
            IpAddr::V4(_) => false,
        };
        let exit_return = facts.sender_is_our_exit && !facts.src_is_overlay
            && facts.src_is_transitable && dst_is_me;
        if !exit_return {
            return InboundVerdict::Decided(InboundDecision::DropSpoof);
        }
    }
    // Exit-node transit: a datagram bound for a non-overlay destination is not
    // for a mesh host at all.
    if !facts.dst_is_overlay {
        let permitted = facts.exit_allows_sender && facts.dst_is_transitable
            && !facts.dst_is_on_link && !facts.dst_is_self_addr;
        return if permitted {
            InboundVerdict::Decided(InboundDecision::Accept)
        } else {
            InboundVerdict::Decided(InboundDecision::DropExit)
        };
    }
    InboundVerdict::ConsultFirewall(info)
}

/// The decision for a packet the firewall was consulted on.
pub fn firewall_decision(info: PacketInfo, denied: bool) -> (decision: InboundDecision)
    ensures
        decision == (if denied {
            InboundDecision::DropFirewall(info)
        } else {
            InboundDecision::Accept
        }),
{
    if denied {
        InboundDecision::DropFirewall(info)
    } else {
        InboundDecision::Accept
    }
}

/// The complete decision for an inbound datagram, with `firewall_denies` the
/// firewall's answer should it be consulted.
pub open spec fn inbound_decision(
    packet_len: int,
    max_packet: int,
    parsed: Option<PacketInfo>,
    peer_ipv6: u128,
    my_v6: u128,
    facts: InboundFacts,
    firewall_denies: bool,
) -> InboundDecision {
    match inbound_verdict(packet_len, max_packet, parsed, peer_ipv6, my_v6, facts) {
        InboundVerdict::Decided(d) => d,
        InboundVerdict::ConsultFirewall(info) => if firewall_denies {
            InboundDecision::DropFirewall(info)
        } else {
            InboundDecision::Accept
        },
    }
}

/// Anti-spoofing holds whatever the firewall says: a packet is accepted only
/// if its source is the sender's own mesh address, or it is exit return
/// traffic from our selected exit peer, addressed to us.
pub proof fn lemma_accepted_source_is_sender_or_exit_return(
    packet_len: int,
    max_packet: int,
    parsed: Option<PacketInfo>,
    peer_ipv6: u128,
    my_v6: u128,
    facts: InboundFacts,
    firewall_denies: bool,
)
    requires
        inbound_decision(packet_len, max_packet, parsed, peer_ipv6, my_v6, facts, firewall_denies)
            == InboundDecision::Accept,
    ensures
        parsed is Some,
        packet_len <= max_packet,
        source_is_sender(parsed.unwrap(), peer_ipv6) || is_exit_return(
            parsed.unwrap(),
            my_v6,
            facts,
        ),
{
}

/// A non-exit node never leaks a peer's traffic: an accepted packet bound
/// outside the overlay is one we offer the sender an exit for, to a
/// destination on the internet proper, never the gateway or its own link.
pub proof fn lemma_accepted_transit_is_permitted(
    packet_len: int,
    max_packet: int,
    parsed: Option<PacketInfo>,
    peer_ipv6: u128,
    my_v6: u128,
    facts: InboundFacts,
    firewall_denies: bool,
)
    requires
        inbound_decision(packet_len, max_packet, parsed, peer_ipv6, my_v6, facts, firewall_denies)
            == InboundDecision::Accept,
        !facts.dst_is_overlay,
    ensures
        transit_permitted(facts),
{
}

/// Traffic for a mesh host is never accepted over a firewall denial, and
/// exit return traffic is no exception: the exit peer cannot reach a local
/// port the firewall closes.
pub proof fn lemma_mesh_traffic_obeys_firewall(
    packet_len: int,
    max_packet: int,
    parsed: Option<PacketInfo>,
    peer_ipv6: u128,
    my_v6: u128,
    facts: InboundFacts,
)
    requires
        facts.dst_is_overlay,
    ensures
        inbound_decision(packet_len, max_packet, parsed, peer_ipv6, my_v6, facts, true)
            != InboundDecision::Accept,
{
}

/// The overlay carries no IPv4: a well-formed IPv4 packet from a peer is
/// dropped as spoofed, whether or not the sender is our exit peer and
/// whatever the firewall would say.
pub proof fn lemma_mesh_ipv4_is_never_accepted(
    packet_len: int,
    max_packet: int,
    info: PacketInfo,
    peer_ipv6: u128,
    my_v6: u128,
    facts: InboundFacts,
    firewall_denies: bool,
)
    requires
        packet_len <= max_packet,
        info.src_ip is V4,
        info.dst_ip is V4,
    ensures
        inbound_decision(
            packet_len,
            max_packet,
            Some(info),
            peer_ipv6,
            my_v6,
            facts,
            firewall_denies,
        ) == InboundDecision::DropSpoof,
{
}

/// True when a parsed packet is a DNS query addressed to the magic resolver
/// address `magic_dns_v6`, the only address the resolver answers on.
pub fn is_magic_dns(info: &PacketInfo, magic_dns_v6: u128) -> (magic: bool)
    ensures
        magic <==> info.dst_port == 53 && info.dst_ip == IpAddr::V6(magic_dns_v6),
{
    info.dst_port == 53 && match info.dst_ip {
        IpAddr::V6(v6) => v6 == magic_dns_v6,
        IpAddr::V4(_) => false,
    }
}

} // verus!

use vstd::prelude::*;

use crate::datagram::{untag_datagram, untagged, TAG_LEN};
use crate::inbound::{
    evaluate_inbound, inbound_decision, inbound_verdict, InboundDecision, InboundFacts,
    InboundVerdict,
};
use crate::packet::{be16, IpAddr, PacketInfo, PROTO_TCP};
use crate::ssh_nat::{
    active_nat, lemma_be16_round_trip, rewrite_ssh_port, ssh_rewrite_plan, ssh_rewritten, SshNat,
    SSH_PORT,
};

verus! {

/// The largest datagram accepted from a peer when IP packets are at most
/// `max_packet` bytes: the packet plus its network handle tag. Anything
/// larger is dropped before it is parsed or written to the TUN.
pub open spec fn max_peer_datagram(max_packet: int) -> int {
    max_packet + TAG_LEN
}

/// The network handle a datagram read from a peer connection carries, or
/// `None` when it must be dropped as malformed.
pub open spec fn screened_handle(datagram: Seq<u8>, legacy: bool, max_packet: int) -> Option<u16> {
    if datagram.len() > max_peer_datagram(max_packet) {
        None
    } else if legacy && datagram.len() > TAG_LEN && datagram[TAG_LEN as int] == 0 {
        None
    } else {
        match untagged(datagram) {
            Some((handle, _)) => Some(handle),
            None => None,
        }
    }
}

/// First screening of a datagram read from a peer connection, before the
/// handle is resolved to a network: oversized datagrams (bounding memory under
/// a flood), a zero byte right after the tag on a legacy connection, and
/// datagrams too short to carry a tag are malformed (`None`); otherwise the
/// datagram's network handle.
pub fn screen_peer_datagram(datagram: &[u8], legacy: bool, max_packet: usize) -> (handle: Option<
    u16,
>)
    ensures
        handle == screened_handle(datagram@, legacy, max_packet as int),
{
    if (datagram.len() as u128) > (max_packet as u128) + (TAG_LEN as u128) {
        return None;
    }
    if legacy && datagram.len() > TAG_LEN && datagram[TAG_LEN] == 0 {
        return None;
    }
    match untag_datagram(datagram) {
        Some((handle, _packet)) => Some(handle),
        None => None,
    }
}

/// What the TUN writer does with a packet handed to it.
#[derive(Debug, Clone, Copy, PartialEq, Eq, Structural)]
pub enum TunWriteAction {
    /// The data plane is down (standby): drain and drop it.
    Discard,
    /// Larger than the device's MTU (queued before a re-attach shrank it).
    Oversized,
    /// Write it to the device.
    Write,
}

/// What the TUN writer does with a packet of `len` bytes.
pub open spec fn tun_action(active: bool, len: int, mtu: int) -> TunWriteAction {
    if !active {
        TunWriteAction::Discard
    } else if len > mtu {
        TunWriteAction::Oversized
    } else {
        TunWriteAction::Write
    }
}

/// The TUN writer's decision for a packet of `len` bytes: dropped while the
/// data plane is inactive, never passed to the device above its `mtu`.
pub fn tun_write_action(active: bool, len: usize, mtu: u16) -> (action: TunWriteAction)
    ensures
        action == tun_action(active, len as int, mtu as int),
{
    if !active {
        TunWriteAction::Discard
    } else if len > mtu as usize {
        TunWriteAction::Oversized
    } else {
        TunWriteAction::Write
    }
}

/// A peer reader forwards an accepted packet to the TUN only if it fits the
/// local MTU; a larger one is answered with a packet-too-big instead.
pub fn fits_local_mtu(len: usize, local_mtu: u16) -> (fits: bool)
    ensures
        fits <==> len <= local_mtu,
{
    len <= local_mtu as usize
}

/// Whether the forwarding loop may buffer a packet for a peer without a live
/// route and (if needed) start dialing it: a peer already being dialed always
/// may; a new dial needs a free slot among `max_in_flight`.
pub fn lazy_dial_admits(already_dialing: bool, in_flight: usize, max_in_flight: usize) -> (allowed:
    bool)
    ensures
        allowed <==> (already_dialing || in_flight < max_in_flight),
{
    !(!already_dialing && in_flight >= max_in_flight)
}

/// A datagram that passes the screening carries a tag, and never exceeds the
/// peer datagram limit.
pub proof fn lemma_screened_datagrams_are_bounded(datagram: Seq<u8>, legacy: bool, max_packet: int)
    requires
        screened_handle(datagram, legacy, max_packet) is Some,
    ensures
        TAG_LEN <= datagram.len() <= max_peer_datagram(max_packet),
        untagged(datagram) is Some,
        screened_handle(datagram, legacy, max_packet) == Some(untagged(datagram).unwrap().0),
{
}

/// The TUN writer never hands the device a packet while the data plane is
/// down, nor one above the device MTU.
pub proof fn lemma_tun_writes_only_when_active_and_fitting(active: bool, len: int, mtu: int)
    ensures
        tun_action(active, len, mtu) == TunWriteAction::Write ==> active && len <= mtu,
        !active ==> tun_action(active, len, mtu) == TunWriteAction::Discard,
{
}

/// What the reassembler made of a datagram whose network resolved.
#[derive(Debug, Clone, Copy, PartialEq, Eq, Structural)]
pub enum Reassembly {
    /// A whole IP packet of this many bytes is ready.
    Complete(usize),
    /// A fragment was kept; the packet is not complete yet.
    Incomplete,
    /// The fragment was refused (and counted) by the reassembler.
    Refused,
}

/// Where one datagram read from a peer ends up.
#[derive(Debug, Clone, Copy, PartialEq, Eq, Structural)]
pub enum ReaderOutcome {
    /// Dropped by the first screening (oversized, legacy zero, no tag).
    Malformed,
    /// Its handle names no network we share with this peer.
    UnknownNetwork,
    /// Held by the reassembler until the rest of the packet arrives.
    AwaitingFragments,
    /// Refused by the reassembler.
    ReassemblyRefused,
    /// The inbound checks dropped the reassembled packet.
    Dropped(InboundDecision),
    /// Accepted, but larger than the local TUN MTU: answered with a
    /// packet-too-big instead of being written.
    TooBig,
    /// Accepted and within the MTU: handed to the TUN writer.
    Deliver,
    /// Addressed to a mesh host: the inbound firewall decides next.
    ConsultFirewall(PacketInfo),
}

/// What becomes of an accepted packet of `len` bytes.
pub open spec fn accepted_outcome(len: int, local_mtu: int) -> ReaderOutcome {
    if len <= local_mtu {
        ReaderOutcome::Deliver
    } else {
        ReaderOutcome::TooBig
    }
}

/// The outcome of a decided inbound evaluation.
pub open spec fn decided_outcome(decision: InboundDecision, len: int, local_mtu: int) -> ReaderOutcome {
    if decision == InboundDecision::Accept {
        accepted_outcome(len, local_mtu)
    } else {
        ReaderOutcome::Dropped(decision)
    }
}

/// Where a datagram read from a peer ends up, before the firewall. The
/// stages run in order: screening, resolving the handle to a network we share
/// with the peer (`network_resolved`), reassembly, the inbound checks on the
/// reassembled packet (`parsed`, `facts`), and the local MTU.
pub open spec fn reader_outcome(
    datagram: Seq<u8>,
    legacy: bool,
    max_packet: int,
    network_resolved: bool,
    reassembly: Reassembly,
    parsed: Option<PacketInfo>,
    peer_ipv6: u128,
    my_v6: u128,
    facts: InboundFacts,
    local_mtu: int,
) -> ReaderOutcome {
    if screened_handle(datagram, legacy, max_packet) is None {
        ReaderOutcome::Malformed
    } else if !network_resolved {
        ReaderOutcome::UnknownNetwork
    } else {
        match reassembly {
            Reassembly::Incomplete => ReaderOutcome::AwaitingFragments,
            Reassembly::Refused => ReaderOutcome::ReassemblyRefused,
            Reassembly::Complete(len) => match inbound_verdict(
                len as int,
                max_packet,
                parsed,
                peer_ipv6,
                my_v6,
                facts,
            ) {
                InboundVerdict::Decided(d) => decided_outcome(d, len as int, local_mtu),
                InboundVerdict::ConsultFirewall(info) => ReaderOutcome::ConsultFirewall(info),
            },
        }
    }
}

/// One datagram through the peer reader's pipeline up to the firewall:
/// screening, network resolution, reassembly, inbound checks and the local
/// MTU. The stage inputs are what the peer table, the reassembler and the
/// packet parser report for this datagram.
pub fn reader_step(
    datagram: &[u8],
    legacy: bool,
    max_packet: usize,
    network_resolved: bool,
    reassembly: Reassembly,
    parsed: Option<PacketInfo>,
    peer_ipv6: u128,
    my_v6: u128,
    facts: &InboundFacts,
    local_mtu: u16,
) -> (outcome: ReaderOutcome)
    ensures
        outcome == reader_outcome(
            datagram@,
            legacy,
            max_packet as int,
            network_resolved,
            reassembly,
            parsed,
            peer_ipv6,
            my_v6,
            *facts,
            local_mtu as int,
        ),
{
    if screen_peer_datagram(datagram, legacy, max_packet).is_none() {
        return ReaderOutcome::Malformed;
    }
    if !network_resolved {
        return ReaderOutcome::UnknownNetwork;
    }
    let len = match reassembly {
        Reassembly::Incomplete => return ReaderOutcome::AwaitingFragments,
        Reassembly::Refused => return ReaderOutcome::ReassemblyRefused,
        Reassembly::Complete(len) => len,
    };
    match evaluate_inbound(len, max_packet, parsed, peer_ipv6, my_v6, facts) {
        InboundVerdict::Decided(InboundDecision::Accept) => if fits_local_mtu(len, local_mtu) {
            ReaderOutcome::Deliver
        } else {
            ReaderOutcome::TooBig
        },
        InboundVerdict::Decided(d) => ReaderOutcome::Dropped(d),
        InboundVerdict::ConsultFirewall(info) => ReaderOutcome::ConsultFirewall(info),
    }
}

/// Where a packet of `len` bytes ends up once the firewall has answered.
pub fn reader_after_firewall(info: PacketInfo, denied: bool, len: usize, local_mtu: u16) -> (outcome:
    ReaderOutcome)
    ensures
        outcome == (if denied {
            ReaderOutcome::Dropped(InboundDecision::DropFirewall(info))
        } else {
            accepted_outcome(len as int, local_mtu as int)
        }),
{
    if denied {
        ReaderOutcome::Dropped(InboundDecision::DropFirewall(info))
    } else if fits_local_mtu(len, local_mtu) {
        ReaderOutcome::Deliver
    } else {
        ReaderOutcome::TooBig
    }
}

/// The bytes a peer reader hands to the TUN for an accepted packet `packet`
/// (`parsed` its header): the packet itself, except that a TCP packet to this
/// node's mesh `:22` has its destination port rewritten to the SSH server's
/// listen port (with the TCP checksum patched) while the NAT is in force.
pub open spec fn inbound_nat_applied(
    packet: Seq<u8>,
    parsed: Option<PacketInfo>,
    cell: Option<SshNat>,
) -> Seq<u8> {
    match parsed {
        Some(info) => match ssh_rewrite_plan(packet, info, true, cell) {
            Some((ihl, port_off, o, n)) => ssh_rewritten(packet, ihl, port_off, o, n),
            None => packet,
        },
        None => packet,
    }
}

/// The last stage of the peer reader: what is written to the TUN for a
/// reassembled `packet` whose pipeline ended in `outcome`. Only a delivered
/// packet is written (`Some`), and then after the inbound SSH NAT: the
/// anti-spoofing and firewall checks ran on the original `:22` packet.
pub fn delivered_packet(
    outcome: ReaderOutcome,
    packet: Vec<u8>,
    parsed: Option<PacketInfo>,
    cell: &Option<SshNat>,
) -> (tun: Option<Vec<u8>>)
    ensures
        tun is Some <==> outcome == ReaderOutcome::Deliver,
        tun matches Some(bytes) ==> bytes@ == inbound_nat_applied(packet@, parsed, *cell),
{
    if outcome != ReaderOutcome::Deliver {
        return None;
    }
    let mut packet = packet;
    match parsed {
        Some(info) => {
            rewrite_ssh_port(packet.as_mut_slice(), &info, true, cell);
        },
        None => {},
    }
    Some(packet)
}

/// The whole pipeline, with `firewall_denies` the firewall's answer should it
/// be consulted.
pub open spec fn reader_final_outcome(
    datagram: Seq<u8>,
    legacy: bool,
    max_packet: int,
    network_resolved: bool,
    reassembly: Reassembly,
    parsed: Option<PacketInfo>,
    peer_ipv6: u128,
    my_v6: u128,
    facts: InboundFacts,
    local_mtu: int,
    firewall_denies: bool,
) -> ReaderOutcome {
    match reader_outcome(
        datagram,
        legacy,
        max_packet,
        network_resolved,
        reassembly,
        parsed,
        peer_ipv6,
        my_v6,
        facts,
        local_mtu,
    ) {
        ReaderOutcome::ConsultFirewall(info) => if firewall_denies {
            ReaderOutcome::Dropped(InboundDecision::DropFirewall(info))
        } else {
            match reassembly {
                Reassembly::Complete(len) => accepted_outcome(len as int, local_mtu),
                _ => ReaderOutcome::Malformed,
            }
        },
        other => other,
    }
}

/// A packet reaches the TUN only after every stage passed: the datagram was
/// screened, its handle named a network we share with the peer, the
/// reassembled packet was accepted by the inbound checks (anti-spoofing,
/// transit and firewall), and it fits the local MTU.
pub proof fn lemma_delivered_packets_passed_every_stage(
    datagram: Seq<u8>,
    legacy: bool,
    max_packet: int,
    network_resolved: bool,
    reassembly: Reassembly,
    parsed: Option<PacketInfo>,
    peer_ipv6: u128,
    my_v6: u128,
    facts: InboundFacts,
    local_mtu: int,
    firewall_denies: bool,
)
    requires
        reader_final_outcome(
            datagram,
            legacy,
            max_packet,
            network_resolved,
            reassembly,
            parsed,
            peer_ipv6,
            my_v6,
            facts,
            local_mtu,
            firewall_denies,
        ) == ReaderOutcome::Deliver,
    ensures
        screened_handle(datagram, legacy, max_packet) is Some,
        network_resolved,
        reassembly is Complete,
        inbound_decision(
            reassembly->Complete_0 as int,
            max_packet,
            parsed,
            peer_ipv6,
            my_v6,
            facts,
            firewall_denies,
        ) == InboundDecision::Accept,
        reassembly->Complete_0 <= local_mtu,
{
}

/// What a peer reader writes to the TUN is the packet it reassembled and
/// accepted: every stage passed (as above), and the bytes handed over have
/// the packet's length and are the packet's own bytes, except when the SSH
/// NAT in force rewrote a TCP packet addressed to this node's mesh `:22`;
/// then only the destination port, which now reads the SSH server's listen
/// port, and the TCP checksum differ.
pub proof fn lemma_tun_receives_the_accepted_packet(
    datagram: Seq<u8>,
    legacy: bool,
    max_packet: int,
    network_resolved: bool,
    reassembly: Reassembly,
    packet: Seq<u8>,
    parsed: Option<PacketInfo>,
    peer_ipv6: u128,
    my_v6: u128,
    facts: InboundFacts,
    local_mtu: int,
    firewall_denies: bool,
    cell: Option<SshNat>,
)
    requires
        reader_final_outcome(
            datagram,
            legacy,
            max_packet,
            network_resolved,
            reassembly,
            parsed,
            peer_ipv6,
            my_v6,
            facts,
            local_mtu,
            firewall_denies,
        ) == ReaderOutcome::Deliver,
        reassembly matches Reassembly::Complete(len) && len == packet.len(),
    ensures
        screened_handle(datagram, legacy, max_packet) is Some,
        network_resolved,
        inbound_decision(
            packet.len() as int,
            max_packet,
            parsed,
            peer_ipv6,
            my_v6,
            facts,
            firewall_denies,
        ) == InboundDecision::Accept,
        packet.len() <= local_mtu,
        inbound_nat_applied(packet, parsed, cell).len() == packet.len(),
        inbound_nat_applied(packet, parsed, cell) == packet || ({
            let info = parsed.unwrap();
            let entry = active_nat(cell).unwrap();
            let (ihl, port_off, o, n) = ssh_rewrite_plan(packet, info, true, cell).unwrap();
            let out = inbound_nat_applied(packet, parsed, cell);
            &&& parsed is Some
            &&& active_nat(cell) is Some
            &&& info.protocol == PROTO_TCP
            &&& info.dst_ip == IpAddr::V6(entry.v6)
            &&& info.dst_port == SSH_PORT
            &&& port_off == ihl + 2
            &&& be16(out[port_off], out[port_off + 1]) == entry.listen_port
            &&& forall|i: int|
                0 <= i < packet.len() && i != port_off && i != port_off + 1 && i != ihl + 16 && i
                    != ihl + 17 ==> out[i] == packet[i]
        }),
{
    lemma_delivered_packets_passed_every_stage(
        datagram,
        legacy,
        max_packet,
        network_resolved,
        reassembly,
        parsed,
        peer_ipv6,
        my_v6,
        facts,
        local_mtu,
        firewall_denies,
    );
    if let Some(info) = parsed {
        if let Some((ihl, port_off, o, n)) = ssh_rewrite_plan(packet, info, true, cell) {
            lemma_be16_round_trip(n);
        }
    }
}

/// Screening drops a datagram for exactly three reasons: it is larger than a
/// packet plus its tag, too short to carry the tag, or, on a legacy
/// connection, the byte right after its tag is zero. Every other datagram,
/// on a legacy connection as on any other, carries on with the big-endian
/// handle in its first two bytes.
pub proof fn lemma_screening_drops_only_the_malformed(datagram: Seq<u8>, legacy: bool, max_packet: int)
    ensures
        (screened_handle(datagram, legacy, max_packet) is None) <==> (datagram.len() > max_packet + 2
            || datagram.len() < 2 || (legacy && datagram.len() > 2 && datagram[2] == 0)),
        screened_handle(datagram, legacy, max_packet) is Some ==> screened_handle(
            datagram,
            legacy,
            max_packet,
        ) == Some((datagram[0] * 256 + datagram[1]) as u16),
{
}

} // verus!

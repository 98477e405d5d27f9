use rayfish::checksum::csum_replace2;
use rayfish::close::{CloseReason, DisconnectEvent, IDLE_CODE, KICK_CODE, LEAVE_CODE};
use rayfish::datagram::{tag_datagram, untag_datagram, TAG_LEN};
use rayfish::datagram::network_handle_entries;
use rayfish::dialing::{DialStep, InFlightDials, PacketAction};
use rayfish::inbound::{
    evaluate_inbound, firewall_decision, is_magic_dns, InboundDecision, InboundFacts,
    InboundVerdict,
};
use rayfish::outbound::{
    batch_sent, dial_dst, plan_flush, plan_outbound, route_lookup, run_continues, FlushItem,
    FlushOutcome, FlushStep, OutboundPlan, OutboundRoute, RouteLookup, SendDrop,
};
use rayfish::packet::{IpAddr, PacketInfo};
use rayfish::reader::{
    delivered_packet, fits_local_mtu, lazy_dial_admits, reader_after_firewall, reader_step, screen_peer_datagram,
    tun_write_action, Reassembly, ReaderOutcome, TunWriteAction,
};
use rayfish::roster::EndpointId;
use rayfish::ssh_nat::{
    init_ssh_nat, rewrite_ssh_port, set_ssh_nat_active, ssh_nat, SshNat, SSH_LISTEN_PORT,
    SSH_PORT,
};

fn v6(segments: [u16; 8]) -> u128 {
    segments.iter().fold(0u128, |acc, s| (acc << 16) | u128::from(*s))
}

fn octets(addr: u128) -> [u8; 16] {
    addr.to_be_bytes()
}

/// Mesh address the test packets are sourced from.
fn test_v6() -> u128 {
    v6([0x0200, 0, 0, 0, 0, 0, 0, 5])
}

/// Another mesh address, standing in for a peer other than the sender.
fn other_v6() -> u128 {
    v6([0x0200, 0, 0, 0, 0, 0, 0, 3])
}

/// This node's mesh address.
fn my_v6() -> u128 {
    v6([0x0200, 0, 0, 0, 0, 0, 0, 1])
}

/// A routable public IPv6 host.
fn public_v6() -> u128 {
    v6([0x2001, 0x4860, 0x4860, 0, 0, 0, 0, 0x8888])
}

/// The largest IP packet the tests allow on the wire.
const MAX_PACKET: usize = 1500;

/// The overlay is `200::/7`; IPv4 is never part of it.
fn is_overlay(ip: IpAddr) -> bool {
    match ip {
        IpAddr::V6(a) => (a >> 121) == 1,
        IpAddr::V4(_) => false,
    }
}

/// The internet could route it: not loopback, unspecified, link-local,
/// unique-local, multicast or private IPv4.
fn is_transitable(ip: IpAddr) -> bool {
    match ip {
        IpAddr::V6(a) => {
            let first = (a >> 112) as u16;
            !(a == 0
                || a == 1
                || first & 0xffc0 == 0xfe80
                || first & 0xfe00 == 0xfc00
                || first & 0xff00 == 0xff00)
        }
        IpAddr::V4(a) => {
            let b = a.to_be_bytes();
            !(b[0] == 10 || b[0] == 127 || (b[0] == 192 && b[1] == 168) || (b[0] == 100 && b[1] >= 64 && b[1] < 128))
        }
    }
}

fn tcp_info(src: IpAddr, dst: IpAddr, src_port: u16, dst_port: u16) -> PacketInfo {
    PacketInfo {
        src_ip: src,
        dst_ip: dst,
        protocol: 6,
        src_port,
        dst_port,
        tcp_flags: 0,
        icmp_type: 0,
        icmp_id: 0,
    }
}

struct Exit {
    our_exit: Option<u128>,
    allowed: bool,
    on_link: Vec<u128>,
    self_addrs: Vec<u128>,
}

fn no_exit() -> Exit {
    Exit { our_exit: None, allowed: false, on_link: vec![], self_addrs: vec![] }
}

fn facts(info: &PacketInfo, peer_ipv6: u128, exit: &Exit) -> InboundFacts {
    let dst_v6 = match info.dst_ip {
        IpAddr::V6(a) => Some(a),
        IpAddr::V4(_) => None,
    };
    InboundFacts {
        src_is_overlay: is_overlay(info.src_ip),
        src_is_transitable: is_transitable(info.src_ip),
        dst_is_overlay: is_overlay(info.dst_ip),
        dst_is_transitable: is_transitable(info.dst_ip),
        sender_is_our_exit: exit.our_exit == Some(peer_ipv6),
        exit_allows_sender: exit.allowed,
        dst_is_on_link: dst_v6.is_some_and(|d| exit.on_link.iter().any(|p| (d >> 64) == (p >> 64))),
        dst_is_self_addr: dst_v6.is_some_and(|d| exit.self_addrs.contains(&d)),
    }
}

/// The whole inbound decision, with the firewall answering `firewall_denies`.
fn decide(info: PacketInfo, peer_ipv6: u128, exit: &Exit, firewall_denies: bool) -> InboundDecision {
    let f = facts(&info, peer_ipv6, exit);
    match evaluate_inbound(64, MAX_PACKET, Some(info), peer_ipv6, my_v6(), &f) {
        InboundVerdict::Decided(d) => d,
        InboundVerdict::ConsultFirewall(info) => firewall_decision(info, firewall_denies),
    }
}

#[test]
fn only_a_deliberate_leave_prunes_the_member() {
    assert!(CloseReason::Left.prunes_member());
    assert!(!CloseReason::Kicked.prunes_member());
    assert!(!CloseReason::Transient.prunes_member());
}

#[test]
fn idle_and_replaced_closes_keep_the_member() {
    assert!(!CloseReason::Idle.prunes_member());
    assert!(!CloseReason::Replaced.prunes_member());
    assert_ne!(LEAVE_CODE, KICK_CODE);
    assert_ne!(KICK_CODE, IDLE_CODE);
    let ev = DisconnectEvent {
        endpoint_id: EndpointId { bytes: [7; 32] },
        ipv6: test_v6(),
        reason: CloseReason::Left,
        conn_stable_id: None,
    };
    assert!(ev.reason.prunes_member());
}

#[test]
fn csum_replace2_round_trips() {
    let c = 0x1234u16;
    assert_eq!(csum_replace2(csum_replace2(c, 22, 41384), 41384, 22), c);
}

#[test]
fn csum_replace2_matches_rfc1624_example() {
    // A checksum over a single word 0x1234 is !0x1234; replacing that word
    // by 0x5678 must give !0x5678.
    assert_eq!(csum_replace2(!0x1234u16, 0x1234, 0x5678), !0x5678u16);
    // The one's-complement zero 0xffff comes back as 0 after a round trip.
    assert_eq!(csum_replace2(csum_replace2(0xffff, 1, 2), 2, 1), 0);
}

#[test]
fn tagged_datagram_carries_the_handle_big_endian() {
    let wire = tag_datagram(0x0102, b"packet");
    assert_eq!(wire.as_ref(), b"\x01\x02packet");
    let (handle, packet) = untag_datagram(&wire).unwrap();
    assert_eq!(handle, 0x0102);
    assert_eq!(packet, b"packet");
}

#[test]
fn untag_refuses_a_datagram_without_a_tag() {
    assert!(untag_datagram(&[]).is_none());
    assert!(untag_datagram(&[1]).is_none());
    let (handle, packet) = untag_datagram(&[0, 1]).unwrap();
    assert_eq!((handle, packet.len()), (1, 0));
    assert_eq!(TAG_LEN, 2);
}

/// TCP checksum over the IPv6 pseudo-header (RFC 2460 section 8.1).
fn tcp_csum_v6(pkt: &[u8]) -> u16 {
    let tcp = &pkt[40..];
    let mut sum: u32 = 0;
    for chunk in pkt[8..40].chunks(2) {
        sum += u16::from_be_bytes([chunk[0], chunk[1]]) as u32;
    }
    sum += tcp.len() as u32;
    sum += 6;
    for (i, chunk) in tcp.chunks(2).enumerate() {
        if i == 8 {
            continue;
        }
        let v = if chunk.len() == 2 {
            u16::from_be_bytes([chunk[0], chunk[1]])
        } else {
            u16::from_be_bytes([chunk[0], 0])
        };
        sum += v as u32;
    }
    while sum >> 16 != 0 {
        sum = (sum & 0xffff) + (sum >> 16);
    }
    !(sum as u16)
}

#[test]
fn ssh_nat_rewrites_port_and_keeps_checksum_valid() {
    let mut cell = None;
    init_ssh_nat(&mut cell, 1, 41384);
    set_ssh_nat_active(&mut cell, true);
    let (our_v6, listen_port) = {
        let nat = ssh_nat(&cell).expect("nat active");
        (nat.v6, nat.listen_port)
    };

    let mut pkt = vec![0u8; 60];
    pkt[0] = 0x60;
    pkt[4..6].copy_from_slice(&20u16.to_be_bytes());
    pkt[6] = 6;
    pkt[7] = 64;
    pkt[8..24].copy_from_slice(&octets(v6([0x0200, 0, 0, 0, 0, 0, 0, 9])));
    pkt[24..40].copy_from_slice(&octets(our_v6));
    pkt[40..42].copy_from_slice(&5000u16.to_be_bytes());
    pkt[42..44].copy_from_slice(&22u16.to_be_bytes());
    pkt[52] = 0x50;
    let ck = tcp_csum_v6(&pkt);
    pkt[56..58].copy_from_slice(&ck.to_be_bytes());

    let info = tcp_info(
        IpAddr::V6(v6([0x0200, 0, 0, 0, 0, 0, 0, 9])),
        IpAddr::V6(our_v6),
        5000,
        22,
    );
    assert!(rewrite_ssh_port(&mut pkt, &info, true, &cell));
    assert_eq!(
        u16::from_be_bytes([pkt[42], pkt[43]]),
        listen_port,
        "dest port rewritten 22 -> listen"
    );
    let field = u16::from_be_bytes([pkt[56], pkt[57]]);
    assert_eq!(field, tcp_csum_v6(&pkt), "checksum stays valid after rewrite");

    // Inactive -> no rewrite.
    set_ssh_nat_active(&mut cell, false);
    let mut pkt2 = pkt.clone();
    let info3 = tcp_info(info.src_ip, info.dst_ip, 5000, listen_port);
    assert!(!rewrite_ssh_port(&mut pkt2, &info3, true, &cell));
    assert_eq!(pkt2, pkt);
}

#[test]
fn ssh_nat_rewrites_the_reply_source_port() {
    let mut cell = None;
    init_ssh_nat(&mut cell, my_v6(), SSH_LISTEN_PORT);
    set_ssh_nat_active(&mut cell, true);
    let mut pkt = vec![0u8; 60];
    pkt[0] = 0x60;
    pkt[4..6].copy_from_slice(&20u16.to_be_bytes());
    pkt[6] = 6;
    pkt[8..24].copy_from_slice(&octets(my_v6()));
    pkt[24..40].copy_from_slice(&octets(other_v6()));
    pkt[40..42].copy_from_slice(&SSH_LISTEN_PORT.to_be_bytes());
    pkt[42..44].copy_from_slice(&5000u16.to_be_bytes());
    pkt[52] = 0x50;
    let ck = tcp_csum_v6(&pkt);
    pkt[56..58].copy_from_slice(&ck.to_be_bytes());
    let info = tcp_info(IpAddr::V6(my_v6()), IpAddr::V6(other_v6()), SSH_LISTEN_PORT, 5000);
    assert!(rewrite_ssh_port(&mut pkt, &info, false, &cell));
    assert_eq!(u16::from_be_bytes([pkt[40], pkt[41]]), SSH_PORT);
    assert_eq!(u16::from_be_bytes([pkt[56], pkt[57]]), tcp_csum_v6(&pkt));

    // Someone else's traffic, UDP, and a truncated header are left alone.
    let before = pkt.clone();
    let foreign = tcp_info(IpAddr::V6(other_v6()), IpAddr::V6(my_v6()), 5000, SSH_PORT);
    assert!(!rewrite_ssh_port(&mut pkt, &foreign, false, &cell));
    let udp = PacketInfo { protocol: 17, ..info };
    assert!(!rewrite_ssh_port(&mut pkt, &udp, false, &cell));
    let mut short = pkt[..50].to_vec();
    assert!(!rewrite_ssh_port(&mut short, &info, false, &cell));
    assert_eq!(pkt, before);
}

#[test]
fn ssh_nat_first_registration_wins() {
    let mut cell: Option<SshNat> = None;
    set_ssh_nat_active(&mut cell, true);
    assert!(cell.is_none(), "an unregistered NAT stays unregistered");
    init_ssh_nat(&mut cell, 5, 1000);
    assert!(ssh_nat(&cell).is_none(), "registered inactive");
    init_ssh_nat(&mut cell, 6, 2000);
    assert_eq!(cell, Some(SshNat { active: false, v6: 5, listen_port: 1000 }));
    set_ssh_nat_active(&mut cell, true);
    assert_eq!(ssh_nat(&cell), Some(SshNat { active: true, v6: 5, listen_port: 1000 }));
    assert!(cell.unwrap().is_ours(IpAddr::V6(5)));
    assert!(!cell.unwrap().is_ours(IpAddr::V4(5)));
}

#[test]
fn inbound_oversized_datagram_dropped_as_malformed() {
    let info = tcp_info(IpAddr::V6(test_v6()), IpAddr::V6(other_v6()), 80, 80);
    let f = facts(&info, test_v6(), &no_exit());
    assert_eq!(
        evaluate_inbound(MAX_PACKET + 1, MAX_PACKET, Some(info), test_v6(), my_v6(), &f),
        InboundVerdict::Decided(InboundDecision::DropMalformed)
    );
    assert_eq!(
        evaluate_inbound(10, MAX_PACKET, None, test_v6(), my_v6(), &f),
        InboundVerdict::Decided(InboundDecision::DropMalformed)
    );
}

#[test]
fn inbound_ipv6_evaluated_by_firewall() {
    let info = tcp_info(IpAddr::V6(test_v6()), IpAddr::V6(v6([0x0200, 0, 0, 0, 0, 0, 0, 0])), 0, 0);
    assert_eq!(decide(info, test_v6(), &no_exit(), true), InboundDecision::DropFirewall(info));
}

#[test]
fn inbound_firewall_denied_port() {
    let blocked = tcp_info(IpAddr::V6(test_v6()), IpAddr::V6(other_v6()), 80, 22);
    let allowed = tcp_info(IpAddr::V6(test_v6()), IpAddr::V6(other_v6()), 80, 80);
    // The firewall denies inbound TCP 22 and allows the rest.
    let denies = |i: &PacketInfo| i.dst_port == 22;
    assert_eq!(
        decide(blocked, test_v6(), &no_exit(), denies(&blocked)),
        InboundDecision::DropFirewall(blocked)
    );
    assert_eq!(decide(allowed, test_v6(), &no_exit(), denies(&allowed)), InboundDecision::Accept);
}

#[test]
fn inbound_mesh_ipv4_is_never_accepted() {
    let info = tcp_info(
        IpAddr::V4(u32::from_be_bytes([100, 64, 0, 5])),
        IpAddr::V4(u32::from_be_bytes([100, 64, 0, 9])),
        80,
        80,
    );
    assert_eq!(decide(info, test_v6(), &no_exit(), false), InboundDecision::DropSpoof);
    let exit = Exit { our_exit: Some(test_v6()), ..no_exit() };
    assert_eq!(decide(info, test_v6(), &exit, false), InboundDecision::DropSpoof);
}

#[test]
fn inbound_spoofed_source_ip_dropped() {
    let pkt = tcp_info(IpAddr::V6(test_v6()), IpAddr::V6(other_v6()), 80, 80);
    assert_eq!(
        decide(pkt, v6([0x0200, 0, 0, 0, 0, 0, 0, 9]), &no_exit(), false),
        InboundDecision::DropSpoof
    );
    assert_eq!(decide(pkt, test_v6(), &no_exit(), false), InboundDecision::Accept);
}

fn packet_to(dst: u128) -> PacketInfo {
    tcp_info(IpAddr::V6(test_v6()), IpAddr::V6(dst), 80, 443)
}

#[test]
fn internet_bound_dropped_when_not_an_exit() {
    assert_eq!(decide(packet_to(public_v6()), test_v6(), &no_exit(), false), InboundDecision::DropExit);
}

#[test]
fn an_allowed_client_still_cannot_transit_onto_the_gateways_own_lan() {
    let exit = Exit {
        allowed: true,
        on_link: vec![v6([0x2001, 0xdb8, 1, 2, 0, 0, 0, 5])],
        ..no_exit()
    };
    let lan_neighbour = v6([0x2001, 0xdb8, 1, 2, 0, 0, 0, 1]);
    assert_eq!(decide(packet_to(lan_neighbour), test_v6(), &exit, true), InboundDecision::DropExit);
    assert_eq!(decide(packet_to(public_v6()), test_v6(), &exit, true), InboundDecision::Accept);
}

#[test]
fn internet_bound_accepted_for_allowed_exit_user() {
    let exit = Exit { allowed: true, ..no_exit() };
    assert_eq!(decide(packet_to(public_v6()), test_v6(), &exit, true), InboundDecision::Accept);
    let refused = Exit { allowed: false, ..no_exit() };
    assert_eq!(decide(packet_to(public_v6()), test_v6(), &refused, true), InboundDecision::DropExit);
}

#[test]
fn exit_transit_refuses_the_gateways_own_network() {
    let exit = Exit { allowed: true, ..no_exit() };
    for dst in [
        v6([0xfe80, 0, 0, 0, 0, 0, 0xa9fe, 0xa9fe]),
        v6([0xfe80, 0, 0, 0, 0, 0, 0, 1]),
        v6([0xfd00, 0, 0, 0, 0, 0, 0, 5]),
        1,
        v6([0xff02, 0, 0, 0, 0, 0, 0, 1]),
        0,
    ] {
        assert_eq!(
            decide(packet_to(dst), test_v6(), &exit, false),
            InboundDecision::DropExit,
            "exit node transited a packet to {dst:x}, which is not on the internet"
        );
    }
    assert_eq!(decide(packet_to(public_v6()), test_v6(), &exit, false), InboundDecision::Accept);
}

#[test]
fn exit_transit_refuses_the_gateways_own_public_ip() {
    let self_addr = v6([0x2606, 0x2800, 0x220, 1, 0, 0, 0, 1]);
    let neighbour = v6([0x2606, 0x2800, 0x220, 1, 0, 0, 0, 2]);
    let exit = Exit { allowed: true, self_addrs: vec![self_addr], ..no_exit() };
    assert_eq!(decide(packet_to(self_addr), test_v6(), &exit, true), InboundDecision::DropExit);
    assert_eq!(decide(packet_to(neighbour), test_v6(), &exit, true), InboundDecision::Accept);
}

fn return_packet(dst: u128) -> PacketInfo {
    tcp_info(IpAddr::V6(public_v6()), IpAddr::V6(dst), 443, 0)
}

#[test]
fn exit_return_traffic_accepted_past_antispoof() {
    let exit = Exit { our_exit: Some(test_v6()), ..no_exit() };
    // The conntrack entry of our own outbound flow admits the reply.
    assert_eq!(decide(return_packet(my_v6()), test_v6(), &exit, false), InboundDecision::Accept);
}

#[test]
fn exit_peer_cannot_inject_unsolicited_traffic() {
    let exit = Exit { our_exit: Some(test_v6()), ..no_exit() };
    let p = return_packet(my_v6());
    assert_eq!(decide(p, test_v6(), &exit, true), InboundDecision::DropFirewall(p));
}

#[test]
fn exit_return_traffic_not_addressed_to_us_is_spoof() {
    let exit = Exit { our_exit: Some(test_v6()), ..no_exit() };
    assert_eq!(
        decide(return_packet(v6([0x0200, 0, 0, 0, 0, 0, 0, 42])), test_v6(), &exit, false),
        InboundDecision::DropSpoof
    );
}

#[test]
fn exit_return_traffic_from_wrong_peer_is_spoof() {
    let exit = Exit { our_exit: Some(test_v6()), ..no_exit() };
    let other_ip = v6([0x0200, 0, 0, 0, 0, 0, 0, 9]);
    assert_eq!(decide(return_packet(my_v6()), other_ip, &exit, false), InboundDecision::DropSpoof);
}

#[test]
fn exit_return_traffic_with_martian_source_is_spoof() {
    let exit = Exit { our_exit: Some(test_v6()), ..no_exit() };
    let p = tcp_info(IpAddr::V6(v6([0xfe80, 0, 0, 0, 0, 0, 0, 1])), IpAddr::V6(my_v6()), 443, 0);
    assert_eq!(decide(p, test_v6(), &exit, false), InboundDecision::DropSpoof);
}

#[test]
fn inbound_tcp_accepted_when_port_explicitly_opened() {
    let denies = |i: &PacketInfo| i.dst_port != 8080;
    let open = tcp_info(IpAddr::V6(test_v6()), IpAddr::V6(other_v6()), 80, 8080);
    let closed = tcp_info(IpAddr::V6(test_v6()), IpAddr::V6(other_v6()), 80, 9090);
    assert_eq!(decide(open, test_v6(), &no_exit(), denies(&open)), InboundDecision::Accept);
    assert_eq!(
        decide(closed, test_v6(), &no_exit(), denies(&closed)),
        InboundDecision::DropFirewall(closed)
    );
}

#[test]
fn magic_dns_predicate_matches_only_magic_ip_port_53() {
    let magic = v6([0x0200, 0, 0, 0, 0, 0, 0, 0x53]);
    let mk = |ip: IpAddr, port: u16| PacketInfo {
        src_ip: IpAddr::V6(v6([0x0200, 0, 0, 0, 0, 0, 0, 5])),
        dst_ip: ip,
        protocol: 17,
        src_port: 50000,
        dst_port: port,
        tcp_flags: 0,
        icmp_type: 0,
        icmp_id: 0,
    };
    assert!(is_magic_dns(&mk(IpAddr::V6(magic), 53), magic));
    assert!(!is_magic_dns(&mk(IpAddr::V6(magic), 80), magic));
    assert!(!is_magic_dns(&mk(IpAddr::V6(v6([0x0200, 0, 0, 0, 0, 0, 0, 9])), 53), magic));
    assert!(!is_magic_dns(&mk(IpAddr::V4(u32::from_be_bytes([100, 100, 100, 53])), 53), magic));
}

#[test]
fn dial_target_is_the_destination_or_the_exit_peer() {
    let dst = IpAddr::V6(other_v6());
    assert_eq!(dial_dst(true, dst, Some(test_v6())), Some(dst));
    let internet = IpAddr::V6(public_v6());
    assert_eq!(dial_dst(false, internet, Some(test_v6())), Some(IpAddr::V6(test_v6())));
    assert_eq!(dial_dst(false, internet, None), None);
}

fn route() -> OutboundRoute {
    OutboundRoute {
        firewall_denies: false,
        receive_mtu: 1500,
        max_datagram: Some(1200),
        legacy: false,
        wire_size: Some(1300),
        send_space: 10_000,
        handle: 1,
    }
}

#[test]
fn outbound_plan_applies_checks_in_order() {
    assert_eq!(plan_outbound(1280, &route(), 0), OutboundPlan::SendFragments);
    assert_eq!(
        plan_outbound(1280, &OutboundRoute { firewall_denies: true, ..route() }, 0),
        OutboundPlan::Drop { reason: SendDrop::Firewall, too_big_mtu: None }
    );
    assert_eq!(
        plan_outbound(1500, &OutboundRoute { receive_mtu: 1280, ..route() }, 0),
        OutboundPlan::Drop { reason: SendDrop::PacketTooBig, too_big_mtu: Some(1280) }
    );
    assert_eq!(
        plan_outbound(1280, &OutboundRoute { max_datagram: None, ..route() }, 0),
        OutboundPlan::Drop { reason: SendDrop::SendFailure, too_big_mtu: None }
    );
    assert_eq!(
        plan_outbound(1280, &OutboundRoute { wire_size: None, ..route() }, 0),
        OutboundPlan::Drop { reason: SendDrop::PacketTooBig, too_big_mtu: None }
    );
    assert_eq!(
        plan_outbound(1280, &route(), 9_000),
        OutboundPlan::Drop { reason: SendDrop::Backpressure, too_big_mtu: None }
    );
    assert_eq!(
        plan_outbound(1280, &OutboundRoute { handle: 0, ..route() }, 0),
        OutboundPlan::Drop { reason: SendDrop::NoPeer, too_big_mtu: None }
    );
}

#[test]
fn legacy_path_sends_only_whole_packets() {
    let legacy = OutboundRoute { legacy: true, max_datagram: Some(1242), ..route() };
    assert_eq!(plan_outbound(1200, &legacy, 0), OutboundPlan::SendWhole);
    // A whole 1280-byte packet plus its tag exceeds the path: the local host
    // gets a packet-too-big naming what the path can carry.
    assert_eq!(
        plan_outbound(1280, &legacy, 0),
        OutboundPlan::Drop { reason: SendDrop::PacketTooBig, too_big_mtu: Some(1240) }
    );
}

#[test]
fn batch_counts_only_fully_queued_packets() {
    let packets = [(1, 100), (3, 1400), (4, 60)];
    assert_eq!(batch_sent(&packets, 4), vec![true, true, true]);
    assert_eq!(batch_sent(&packets, 2), vec![true, false, false]);
    assert_eq!(batch_sent(&packets, 0), vec![false, false, false]);
}

#[test]
fn peer_datagrams_are_screened_before_routing() {
    assert_eq!(screen_peer_datagram(&[0, 7, 0x60], false, MAX_PACKET), Some(7));
    assert_eq!(screen_peer_datagram(&[0], false, MAX_PACKET), None);
    assert_eq!(screen_peer_datagram(&[0, 7, 0], true, MAX_PACKET), None);
    assert_eq!(screen_peer_datagram(&[0, 7, 0], false, MAX_PACKET), Some(7));
    let huge = vec![0u8; MAX_PACKET + TAG_LEN + 1];
    assert_eq!(screen_peer_datagram(&huge, false, MAX_PACKET), None);
    let largest = vec![1u8; MAX_PACKET + TAG_LEN];
    assert_eq!(screen_peer_datagram(&largest, false, MAX_PACKET), Some(0x0101));
}

#[test]
fn tun_writer_writes_when_active() {
    assert_eq!(tun_write_action(true, 4, 1280), TunWriteAction::Write);
    assert_eq!(tun_write_action(true, 1281, 1280), TunWriteAction::Oversized);
}

#[test]
fn tun_writer_drops_when_inactive() {
    assert_eq!(tun_write_action(false, 7, 1280), TunWriteAction::Discard);
}

#[test]
fn local_mtu_and_lazy_dial_limits() {
    assert!(fits_local_mtu(1280, 1280));
    assert!(!fits_local_mtu(1281, 1280));
    assert!(lazy_dial_admits(true, 64, 64));
    assert!(lazy_dial_admits(false, 63, 64));
    assert!(!lazy_dial_admits(false, 64, 64));
}

#[test]
fn route_lookup_follows_the_destination_or_the_exit() {
    assert_eq!(route_lookup(true, IpAddr::V6(other_v6()), None), RouteLookup::ByMeshIp(other_v6()));
    assert_eq!(
        route_lookup(true, IpAddr::V4(u32::from_be_bytes([100, 64, 0, 9])), None),
        RouteLookup::Unroutable
    );
    assert_eq!(
        route_lookup(false, IpAddr::V6(public_v6()), Some((test_v6(), "test-net".to_string()))),
        RouteLookup::ExitOnNetwork { ipv6: test_v6(), network: "test-net".to_string() }
    );
    assert_eq!(route_lookup(false, IpAddr::V6(public_v6()), None), RouteLookup::Unroutable);
}

#[test]
fn a_route_change_ends_the_batch_run() {
    assert!(run_continues(None, (1, 7)));
    assert!(run_continues(Some((1, 7)), (1, 7)));
    assert!(!run_continues(Some((1, 7)), (2, 7)));
    assert!(!run_continues(Some((1, 7)), (1, 8)));
}

#[test]
fn handle_announcement_skips_networks_without_a_key() {
    let handles = vec![("a".to_string(), 1u16), ("b".to_string(), 2), ("c".to_string(), 3)];
    let key = EndpointId { bytes: [9; 32] };
    let other = EndpointId { bytes: [8; 32] };
    let entries = network_handle_entries(&handles, &[Some(key), None, Some(other)]);
    assert_eq!(entries, vec![(key, 1), (other, 3)]);
    assert!(network_handle_entries(&handles[..1], &[None]).is_empty());
}

#[test]
fn in_flight_dials_are_bounded_and_never_doubled() {
    let a = EndpointId { bytes: [1; 32] };
    let b = EndpointId { bytes: [2; 32] };
    let c = EndpointId { bytes: [3; 32] };
    let mut dials = InFlightDials::new(2);
    assert_eq!(dials.on_unrouted_packet(a), DialStep::Buffer { start_dial: true });
    assert_eq!(dials.on_unrouted_packet(a), DialStep::Buffer { start_dial: false });
    assert_eq!(dials.on_unrouted_packet(b), DialStep::Buffer { start_dial: true });
    assert_eq!(dials.on_unrouted_packet(c), DialStep::Reject);
    assert_eq!(dials.len(), 2);
    assert!(dials.is_dialing(&a) && dials.is_dialing(&b) && !dials.is_dialing(&c));
    dials.on_dial_done(&a);
    assert!(!dials.is_dialing(&a));
    assert_eq!(dials.len(), 1);
    assert_eq!(dials.on_unrouted_packet(c), DialStep::Buffer { start_dial: true });
}

fn flush_item(run: Option<(u16, usize)>, len: usize, staged_room: usize) -> FlushItem {
    FlushItem {
        parsed: true,
        run,
        len,
        route: OutboundRoute { wire_size: Some(len), send_space: staged_room, ..route() },
        encoded_len: len,
    }
}

#[test]
fn failed_dial_drops_the_whole_backlog() {
    let items = [flush_item(Some((1, 1)), 100, 10_000), flush_item(Some((1, 1)), 100, 10_000)];
    let (steps, last) = plan_flush(false, &items);
    assert!(!last);
    assert_eq!(
        steps,
        vec![FlushStep { send_batch_first: false, outcome: FlushOutcome::DialFailed }; 2]
    );
}

#[test]
fn flush_batches_runs_and_keeps_each_runs_budget() {
    let mut unparsed = flush_item(Some((1, 1)), 10, 10_000);
    unparsed.parsed = false;
    let items = [
        flush_item(Some((1, 1)), 600, 1_000),
        flush_item(Some((1, 1)), 600, 1_000),
        flush_item(Some((2, 1)), 600, 1_000),
        unparsed,
        flush_item(None, 600, 1_000),
    ];
    let (steps, last) = plan_flush(true, &items);
    assert!(last);
    let send = FlushOutcome::Planned(OutboundPlan::SendFragments);
    assert_eq!(steps[0], FlushStep { send_batch_first: false, outcome: send });
    // 600 staged already: the second 600 would overflow the 1000-byte buffer.
    assert_eq!(
        steps[1],
        FlushStep {
            send_batch_first: false,
            outcome: FlushOutcome::Planned(OutboundPlan::Drop {
                reason: SendDrop::Backpressure,
                too_big_mtu: None
            })
        }
    );
    // A new route hands the first run over and starts from an empty budget.
    assert_eq!(steps[2], FlushStep { send_batch_first: true, outcome: send });
    assert_eq!(steps[3].outcome, FlushOutcome::Malformed);
    assert_eq!(steps[4].outcome, FlushOutcome::NoRoute);
}

fn mesh_packet() -> PacketInfo {
    tcp_info(IpAddr::V6(test_v6()), IpAddr::V6(other_v6()), 80, 80)
}

#[test]
fn reader_delivers_only_after_every_stage() {
    let info = mesh_packet();
    let f = facts(&info, test_v6(), &no_exit());
    let step = |datagram: &[u8], resolved: bool, r: Reassembly, mtu: u16| {
        reader_step(datagram, false, MAX_PACKET, resolved, r, Some(info), test_v6(), my_v6(), &f, mtu)
    };
    let datagram = [0u8, 1, 0x60, 0];
    assert_eq!(step(&[0], true, Reassembly::Complete(60), 1280), ReaderOutcome::Malformed);
    assert_eq!(step(&datagram, false, Reassembly::Complete(60), 1280), ReaderOutcome::UnknownNetwork);
    assert_eq!(step(&datagram, true, Reassembly::Incomplete, 1280), ReaderOutcome::AwaitingFragments);
    assert_eq!(step(&datagram, true, Reassembly::Refused, 1280), ReaderOutcome::ReassemblyRefused);
    assert_eq!(
        step(&datagram, true, Reassembly::Complete(60), 1280),
        ReaderOutcome::ConsultFirewall(info)
    );
    assert_eq!(reader_after_firewall(info, false, 60, 1280), ReaderOutcome::Deliver);
    assert_eq!(reader_after_firewall(info, false, 1400, 1280), ReaderOutcome::TooBig);
    assert_eq!(
        reader_after_firewall(info, true, 60, 1280),
        ReaderOutcome::Dropped(InboundDecision::DropFirewall(info))
    );
    // Transit accepted by the exit checks still faces the MTU.
    let transit = tcp_info(IpAddr::V6(test_v6()), IpAddr::V6(public_v6()), 80, 443);
    let exit = Exit { allowed: true, ..no_exit() };
    let tf = facts(&transit, test_v6(), &exit);
    let run = |len: usize| {
        reader_step(&datagram, false, MAX_PACKET, true, Reassembly::Complete(len), Some(transit), test_v6(), my_v6(), &tf, 1280)
    };
    assert_eq!(run(60), ReaderOutcome::Deliver);
    assert_eq!(run(1400), ReaderOutcome::TooBig);
}

#[test]
fn inbound_clean_tcp_denied_by_secure_default() {
    // The built-in default denies unsolicited inbound TCP (no service port is
    // exposed out of the box): the firewall answers "deny" for TCP 443.
    let pkt = tcp_info(IpAddr::V6(test_v6()), IpAddr::V6(other_v6()), 80, 443);
    assert_eq!(decide(pkt, test_v6(), &no_exit(), true), InboundDecision::DropFirewall(pkt));
}

#[test]
fn inbound_icmp_accepted_by_default() {
    // Inbound ICMP is allowed by default, so the firewall answers "allow" for an
    // ICMPv6 echo request even under the deny-inbound default.
    let pkt = PacketInfo {
        src_ip: IpAddr::V6(test_v6()),
        dst_ip: IpAddr::V6(other_v6()),
        protocol: 58,
        src_port: 0,
        dst_port: 0,
        tcp_flags: 0,
        icmp_type: 128,
        icmp_id: 0,
    };
    assert_eq!(decide(pkt, test_v6(), &no_exit(), false), InboundDecision::Accept);
}

#[test]
fn exit_return_traffic_accepted_by_ip_when_identity_differs() {
    // The exit peer is recognised by the verified mesh IPv6 the reader resolved
    // for the sender (the selection's), whatever user identity it resolves to;
    // the firewall admits the reply to our own outbound flow.
    let exit = Exit { our_exit: Some(test_v6()), ..no_exit() };
    assert_eq!(decide(return_packet(my_v6()), test_v6(), &exit, false), InboundDecision::Accept);
}

#[test]
fn exit_return_traffic_accepted_on_any_shared_network() {
    // The exemption is scoped to the exit peer, not to the network handle the
    // reply arrives under: nothing of the network enters the decision.
    let exit = Exit { our_exit: Some(test_v6()), ..no_exit() };
    assert_eq!(decide(return_packet(my_v6()), test_v6(), &exit, false), InboundDecision::Accept);
}

/// An IPv6/TCP packet from `src:5000` to `dst:dst_port` with a valid TCP
/// checksum.
fn tcp_packet_v6(src: u128, dst: u128, dst_port: u16) -> Vec<u8> {
    let mut pkt = vec![0u8; 60];
    pkt[0] = 0x60;
    pkt[4..6].copy_from_slice(&20u16.to_be_bytes());
    pkt[6] = 6;
    pkt[7] = 64;
    pkt[8..24].copy_from_slice(&octets(src));
    pkt[24..40].copy_from_slice(&octets(dst));
    pkt[40..42].copy_from_slice(&5000u16.to_be_bytes());
    pkt[42..44].copy_from_slice(&dst_port.to_be_bytes());
    pkt[52] = 0x50;
    let ck = tcp_csum_v6(&pkt);
    pkt[56..58].copy_from_slice(&ck.to_be_bytes());
    pkt
}

#[test]
fn delivered_packets_get_the_inbound_ssh_nat() {
    let mut cell = None;
    init_ssh_nat(&mut cell, my_v6(), SSH_LISTEN_PORT);
    set_ssh_nat_active(&mut cell, true);
    let to_ssh = tcp_packet_v6(test_v6(), my_v6(), SSH_PORT);
    let info = tcp_info(IpAddr::V6(test_v6()), IpAddr::V6(my_v6()), 5000, SSH_PORT);

    // Only a delivered packet is written to the TUN.
    assert_eq!(delivered_packet(ReaderOutcome::TooBig, to_ssh.clone(), Some(info), &cell), None);
    assert_eq!(
        delivered_packet(
            ReaderOutcome::Dropped(InboundDecision::DropSpoof),
            to_ssh.clone(),
            Some(info),
            &cell
        ),
        None
    );

    // Mesh :22 reaches the SSH server's listen port, checksum still valid, and
    // nothing else changes.
    let out = delivered_packet(ReaderOutcome::Deliver, to_ssh.clone(), Some(info), &cell).unwrap();
    assert_eq!(out.len(), to_ssh.len());
    assert_eq!(u16::from_be_bytes([out[42], out[43]]), SSH_LISTEN_PORT);
    assert_eq!(u16::from_be_bytes([out[56], out[57]]), tcp_csum_v6(&out));
    for i in (0..out.len()).filter(|i| ![42, 43, 56, 57].contains(i)) {
        assert_eq!(out[i], to_ssh[i], "byte {i} changed");
    }

    // Other traffic, and any traffic while the NAT is off, passes unchanged.
    let web = tcp_packet_v6(test_v6(), my_v6(), 443);
    let web_info = tcp_info(IpAddr::V6(test_v6()), IpAddr::V6(my_v6()), 5000, 443);
    assert_eq!(
        delivered_packet(ReaderOutcome::Deliver, web.clone(), Some(web_info), &cell),
        Some(web)
    );
    set_ssh_nat_active(&mut cell, false);
    assert_eq!(
        delivered_packet(ReaderOutcome::Deliver, to_ssh.clone(), Some(info), &cell),
        Some(to_ssh)
    );
}

fn magic_query() -> PacketInfo {
    PacketInfo {
        src_ip: IpAddr::V6(my_v6()),
        dst_ip: IpAddr::V6(other_v6()),
        protocol: 17,
        src_port: 40000,
        dst_port: 53,
        tcp_flags: 0,
        icmp_type: 0,
        icmp_id: 0,
    }
}

#[test]
fn forwarding_loop_checks_in_order() {
    let a = EndpointId { bytes: [1; 32] };
    let b = EndpointId { bytes: [2; 32] };
    let mut dials = InFlightDials::new(1);
    let pkt = mesh_packet();
    let magic = other_v6();
    // Unparseable first, then magic DNS (even with a live route), then the route.
    assert_eq!(dials.on_outbound_packet(None, magic, true, true, Some(a)), PacketAction::DropMalformed);
    assert_eq!(
        dials.on_outbound_packet(Some(magic_query()), magic, true, true, Some(a)),
        PacketAction::ResolveDns
    );
    assert_eq!(
        dials.on_outbound_packet(Some(magic_query()), magic, false, true, Some(a)),
        PacketAction::DropDnsConcurrency
    );
    assert_eq!(dials.on_outbound_packet(Some(pkt), magic, false, true, Some(a)), PacketAction::Send);
    assert_eq!(dials.on_outbound_packet(Some(pkt), magic, true, false, None), PacketAction::DropNoPeer);
    assert_eq!(dials.len(), 0);
    // No live route: buffer and dial, buffer only while the dial is out, and
    // drop for another peer once the single slot is taken.
    assert_eq!(
        dials.on_outbound_packet(Some(pkt), magic, true, false, Some(a)),
        PacketAction::Buffer { start_dial: true }
    );
    assert_eq!(
        dials.on_outbound_packet(Some(pkt), magic, true, false, Some(a)),
        PacketAction::Buffer { start_dial: false }
    );
    assert_eq!(
        dials.on_outbound_packet(Some(pkt), magic, true, false, Some(b)),
        PacketAction::DropLazyDialConcurrency
    );
    assert_eq!(dials.len(), 1);
    dials.on_dial_done(&a);
    assert_eq!(
        dials.on_outbound_packet(Some(pkt), magic, true, false, Some(b)),
        PacketAction::Buffer { start_dial: true }
    );
}

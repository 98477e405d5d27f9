use vstd::prelude::*;

use crate::datagram::TAG_LEN;
use crate::packet::IpAddr;

verus! {

/// Why an outbound packet was not put on the wire.
#[derive(Debug, Clone, Copy, PartialEq, Eq, Structural)]
pub enum SendDrop {
    /// The outbound firewall denied it.
    Firewall,
    /// Larger than the peer accepts or the path can carry.
    PacketTooBig,
    /// The connection cannot carry datagrams.
    SendFailure,
    /// The peer's datagram send buffer is too full to take it whole.
    Backpressure,
    /// No handle for the routed network has been announced yet.
    NoPeer,
}

/// What to do with an outbound packet routed to a peer connection.
#[derive(Debug, Clone, Copy, PartialEq, Eq, Structural)]
pub enum OutboundPlan {
    /// Drop it, counting `reason`. With `too_big_mtu` set, first inject a
    /// packet-too-big reply carrying that MTU into the local TUN.
    Drop { reason: SendDrop, too_big_mtu: Option<u16> },
    /// Send it as one tagged datagram (a legacy connection).
    SendWhole,
    /// Send it through mesh fragmentation.
    SendFragments,
}

/// The state of one outbound packet's route at the moment it is prepared.
#[derive(Debug, Clone, Copy, PartialEq, Eq, Structural)]
pub struct OutboundRoute {
    /// The firewall denies the packet on its way out.
    pub firewall_denies: bool,
    /// The largest IP packet the peer has said it accepts.
    pub receive_mtu: u16,
    /// The largest datagram the connection can carry, if it carries any.
    pub max_datagram: Option<usize>,
    /// The connection speaks the legacy protocol: whole packets only.
    pub legacy: bool,
    /// Bytes the packet takes on the wire, fragment headers included, when
    /// it can be sent over `max_datagram` at all.
    pub wire_size: Option<usize>,
    /// Free room in the connection's datagram send buffer.
    pub send_space: usize,
    /// Our handle for the routed network; `0` when none is announced.
    pub handle: u16,
}

/// The plan for an outbound packet of `len` bytes over `route`, with `staged`
/// bytes already prepared for the same connection but not yet handed to it.
pub open spec fn outbound_plan(len: int, route: OutboundRoute, staged: int) -> OutboundPlan {
    if route.firewall_denies {
        OutboundPlan::Drop { reason: SendDrop::Firewall, too_big_mtu: None }
    } else if len > route.receive_mtu {
        OutboundPlan::Drop { reason: SendDrop::PacketTooBig, too_big_mtu: Some(route.receive_mtu) }
    } else {
        match route.max_datagram {
            None => OutboundPlan::Drop { reason: SendDrop::SendFailure, too_big_mtu: None },
            Some(max) => if route.legacy && len + TAG_LEN > max {
                OutboundPlan::Drop {
                    reason: SendDrop::PacketTooBig,
                    too_big_mtu: Some(
                        (if max >= TAG_LEN {
                            max - TAG_LEN
                        } else {
                            0
                        }) as u16,
                    ),
                }
            } else {
                match route.wire_size {
                    None => OutboundPlan::Drop { reason: SendDrop::PacketTooBig, too_big_mtu: None },
                    Some(wire) => if route.send_space < staged + wire {
                        OutboundPlan::Drop { reason: SendDrop::Backpressure, too_big_mtu: None }
                    } else if route.handle == 0 {
                        OutboundPlan::Drop { reason: SendDrop::NoPeer, too_big_mtu: None }
                    } else if route.legacy {
                        OutboundPlan::SendWhole
                    } else {
                        OutboundPlan::SendFragments
                    },
                }
            },
        }
    }
}

/// Decide how an outbound packet of `len` bytes routed to a connection goes
/// out, in the order the checks apply: the outbound firewall; the peer's
/// receive MTU (answered with a packet-too-big for it, never a sub-1280 one,
/// since smaller QUIC paths are handled by fragmentation); a connection that
/// carries no datagrams; a legacy connection whose path cannot carry the
/// whole tagged packet (answered with a packet-too-big for the path); a
/// packet too big to fragment; drop-newest when the send buffer cannot take
/// it beside the `staged` bytes; and a network without an announced handle.
pub fn plan_outbound(len: usize, route: &OutboundRoute, staged: usize) -> (plan: OutboundPlan)
    ensures
        plan == outbound_plan(len as int, *route, staged as int),
{
    if route.firewall_denies {
        return OutboundPlan::Drop { reason: SendDrop::Firewall, too_big_mtu: None };
    }
    if len > route.receive_mtu as usize {
        return OutboundPlan::Drop {
            reason: SendDrop::PacketTooBig,
            too_big_mtu: Some(route.receive_mtu),
        };
    }
    let max = match route.max_datagram {
        Some(max) => max,
        None => return OutboundPlan::Drop { reason: SendDrop::SendFailure, too_big_mtu: None },
    };
    if route.legacy && (len as u128) + (TAG_LEN as u128) > max as u128 {
        let room: usize = if max >= TAG_LEN {
            max - TAG_LEN
        } else {
            0
        };
        return OutboundPlan::Drop {
            reason: SendDrop::PacketTooBig,
            too_big_mtu: Some(room as u16),
        };
    }
    let wire = match route.wire_size {
        Some(wire) => wire,
        None => return OutboundPlan::Drop { reason: SendDrop::PacketTooBig, too_big_mtu: None },
    };
    if (route.send_space as u128) < (staged as u128) + (wire as u128) {
        return OutboundPlan::Drop { reason: SendDrop::Backpressure, too_big_mtu: None };
    }
    if route.handle == 0 {
        return OutboundPlan::Drop { reason: SendDrop::NoPeer, too_big_mtu: None };
    }
    if route.legacy {
        OutboundPlan::SendWhole
    } else {
        OutboundPlan::SendFragments
    }
}

/// The peer's receive MTU refuses only what exceeds it. A packet longer than
/// the receive MTU that the firewall lets out is dropped with a packet-too-big
/// carrying that MTU; a packet no longer than it, on a connection that carries
/// datagrams and fits it (whole, on a legacy connection), with room in the
/// send buffer beside what is staged and an announced handle, is sent.
pub proof fn lemma_receive_mtu_refuses_only_larger_packets(len: int, route: OutboundRoute, staged: int)
    ensures
        !route.firewall_denies && len > route.receive_mtu ==> outbound_plan(len, route, staged)
            == (OutboundPlan::Drop {
            reason: SendDrop::PacketTooBig,
            too_big_mtu: Some(route.receive_mtu),
        }),
        !route.firewall_denies && len <= route.receive_mtu && route.max_datagram is Some && (
        route.legacy ==> len + 2 <= route.max_datagram.unwrap()) && route.wire_size is Some
            && staged + route.wire_size.unwrap() <= route.send_space && route.handle != 0
            ==> outbound_plan(len, route, staged) == (if route.legacy {
            OutboundPlan::SendWhole
        } else {
            OutboundPlan::SendFragments
        }),
        !route.legacy && outbound_plan(len, route, staged) == (OutboundPlan::Drop {
            reason: SendDrop::PacketTooBig,
            too_big_mtu: Some(route.receive_mtu),
        }) ==> len > route.receive_mtu,
{
}

/// Every drop of an outbound packet has its stated cause: the firewall is
/// checked first and its denial always drops; a backpressure drop means the
/// send buffer cannot take the packet beside what is staged; a no-peer drop
/// means no handle is announced; a send failure means the connection carries
/// no datagrams.
pub proof fn lemma_outbound_drops_have_their_cause(len: int, route: OutboundRoute, staged: int)
    ensures
        route.firewall_denies <==> outbound_plan(len, route, staged) == (OutboundPlan::Drop {
            reason: SendDrop::Firewall,
            too_big_mtu: None,
        }),
        outbound_plan(len, route, staged) matches OutboundPlan::Drop {
            reason: SendDrop::Backpressure,
            ..
        } ==> route.wire_size is Some && staged + route.wire_size.unwrap() > route.send_space,
        outbound_plan(len, route, staged) matches OutboundPlan::Drop { reason: SendDrop::NoPeer, .. }
            ==> route.handle == 0,
        outbound_plan(len, route, staged) matches OutboundPlan::Drop {
            reason: SendDrop::SendFailure,
            ..
        } ==> route.max_datagram is None,
{
}

/// Nothing is sent that the firewall denies, that exceeds the peer's
/// receive MTU, or that the send buffer cannot take beside what is staged
/// (drop-newest, never evicting an older queued datagram).
pub proof fn lemma_sent_packets_fit(len: int, route: OutboundRoute, staged: int)
    requires
        outbound_plan(len, route, staged) is SendWhole || outbound_plan(len, route, staged) is SendFragments,
    ensures
        !route.firewall_denies,
        len <= route.receive_mtu,
        route.handle != 0,
        route.wire_size is Some && staged + route.wire_size.unwrap() <= route.send_space,
        route.max_datagram is Some,
        outbound_plan(len, route, staged) is SendWhole ==> len + TAG_LEN
            <= route.max_datagram.unwrap(),
{
}

/// Which packets of a batch handed to a connection made it into its send
/// queue. `packets` holds, per IP packet, the end index of its datagrams in
/// the batch and its length; the connection queued the first `queued`
/// datagrams. A packet counts as sent only if all its datagrams were queued.
pub fn batch_sent(packets: &[(usize, usize)], queued: usize) -> (sent: Vec<bool>)
    ensures
        sent@.len() == packets@.len(),
        forall|i: int| 0 <= i < packets@.len() ==> sent@[i] == (packets@[i].0 <= queued),
{
    let mut sent: Vec<bool> = Vec::new();
    let mut i: usize = 0;
    while i < packets.len()
        invariant
            i <= packets@.len(),
            sent@.len() == i,
            forall|j: int| 0 <= j < i ==> sent@[j] == (packets@[j].0 <= queued),
        decreases packets@.len() - i,
    {
        let (end, _len) = packets[i];
        sent.push(end <= queued);
        i = i + 1;
    }
    sent
}

/// The mesh peer an outbound packet is sent to: the destination itself for
/// overlay traffic, the selected exit peer (`exit_selection`, its mesh IPv6)
/// for internet-bound traffic. `None` when a packet is internet-bound and no
/// exit node is selected.
pub fn dial_dst(dst_is_overlay: bool, dst: IpAddr, exit_selection: Option<u128>) -> (target:
    Option<IpAddr>)
    ensures
        target == (if dst_is_overlay {
            Some(dst)
        } else {
            match exit_selection {
                Some(v6) => Some(IpAddr::V6(v6)),
                None => None,
            }
        }),
{
    if dst_is_overlay {
        return Some(dst);
    }
    match exit_selection {
        Some(v6) => Some(IpAddr::V6(v6)),
        None => None,
    }
}

/// Where to look up the live route for an outbound packet.
#[derive(Debug, Clone, PartialEq, Eq)]
pub enum RouteLookup {
    /// Overlay traffic: the destination's own mesh route, by its IPv6.
    ByMeshIp(u128),
    /// Internet-bound traffic: the selected exit peer's route, pinned to the
    /// network whose allow-list permits us.
    ExitOnNetwork { ipv6: u128, network: String },
    /// Nothing to route it through: an overlay IPv4 destination, or
    /// internet-bound traffic with no exit selected.
    Unroutable,
}

/// The route lookup for a packet to `dst`, given the selected exit peer
/// (its mesh IPv6 and the network it was selected on), if any.
pub open spec fn route_lookup_for(
    dst_is_overlay: bool,
    dst: IpAddr,
    exit_selection: Option<(u128, String)>,
) -> RouteLookup {
    if dst_is_overlay {
        match dst {
            IpAddr::V6(v6) => RouteLookup::ByMeshIp(v6),
            IpAddr::V4(_) => RouteLookup::Unroutable,
        }
    } else {
        match exit_selection {
            Some((ipv6, network)) => RouteLookup::ExitOnNetwork { ipv6, network },
            None => RouteLookup::Unroutable,
        }
    }
}

/// Which live route an outbound packet is sent over: the destination's own
/// mesh route for overlay traffic (only the IPv6 half of the overlay carries
/// traffic), or the selected exit peer's route on the exit network for
/// internet-bound traffic.
pub fn route_lookup(dst_is_overlay: bool, dst: IpAddr, exit_selection: Option<(u128, String)>) -> (lookup:
    RouteLookup)
    ensures
        lookup == route_lookup_for(dst_is_overlay, dst, exit_selection),
{
    if dst_is_overlay {
        return match dst {
            IpAddr::V6(v6) => RouteLookup::ByMeshIp(v6),
            IpAddr::V4(_) => RouteLookup::Unroutable,
        };
    }
    match exit_selection {
        Some((ipv6, network)) => RouteLookup::ExitOnNetwork { ipv6, network },
        None => RouteLookup::Unroutable,
    }
}

/// Whether a packet routed over `(handle, connection id)` joins the run of
/// datagrams being batched for `batched`: a run belongs to one connection
/// and one network handle, so any change ends it.
pub fn run_continues(batched: Option<(u16, usize)>, route: (u16, usize)) -> (continues: bool)
    ensures
        continues <==> (batched is None || batched == Some(route)),
{
    match batched {
        None => true,
        Some((handle, conn)) => handle == route.0 && conn == route.1,
    }
}

/// One packet of a peer's on-demand backlog, as the flush sees it once the
/// dial succeeded.
#[derive(Debug, Clone, Copy, PartialEq, Eq)]
pub struct FlushItem {
    /// The packet parses as IP.
    pub parsed: bool,
    /// The live route it takes, as (network handle, connection id), if it
    /// still routes.
    pub run: Option<(u16, usize)>,
    /// Its length.
    pub len: usize,
    /// Its route's state when it is prepared.
    pub route: OutboundRoute,
    /// Total bytes of the datagrams it is encoded into when sent.
    pub encoded_len: usize,
}

/// What the flush does with one backlog packet.
#[derive(Debug, Clone, Copy, PartialEq, Eq, Structural)]
pub enum FlushOutcome {
    /// The dial failed: dropped as having no peer.
    DialFailed,
    /// Not an IP packet: dropped.
    Malformed,
    /// The connection vanished before the flush: dropped as having no peer.
    NoRoute,
    /// Prepared against its route with the staged bytes of its run.
    Planned(OutboundPlan),
}

/// One step of the flush.
#[derive(Debug, Clone, Copy, PartialEq, Eq, Structural)]
pub struct FlushStep {
    /// Hand the batch built so far to its connection before this packet: the
    /// packet's route differs from the run's.
    pub send_batch_first: bool,
    pub outcome: FlushOutcome,
}

/// The flush's running state: the route of the batch being built (if any)
/// and the bytes staged in it.
pub open spec fn flush_state(items: Seq<FlushItem>, n: int) -> (Option<(u16, usize)>, int)
    decreases n,
{
    if n <= 0 {
        (None, 0)
    } else {
        let (batched, staged) = flush_state(items, n - 1);
        let item = items[n - 1];
        if !item.parsed || item.run is None {
            (batched, staged)
        } else {
            let ends = batched is Some && batched != item.run;
            let staged_now = if ends {
                0
            } else {
                staged
            };
            let batched_now = if ends {
                None
            } else {
                batched
            };
            match outbound_plan(item.len as int, item.route, staged_now) {
                OutboundPlan::Drop { .. } => (batched_now, staged_now),
                _ => (item.run, staged_now + item.encoded_len),
            }
        }
    }
}

/// The bytes staged before packet `n` is prepared, once its run is settled.
pub open spec fn staged_for(items: Seq<FlushItem>, n: int) -> int {
    let (batched, staged) = flush_state(items, n);
    if batched is Some && batched != items[n].run {
        0
    } else {
        staged
    }
}

/// The step the flush takes for packet `n` of a backlog whose dial succeeded.
pub open spec fn flush_step(items: Seq<FlushItem>, n: int) -> FlushStep {
    let item = items[n];
    let (batched, staged) = flush_state(items, n);
    if !item.parsed {
        FlushStep { send_batch_first: false, outcome: FlushOutcome::Malformed }
    } else if item.run is None {
        FlushStep { send_batch_first: false, outcome: FlushOutcome::NoRoute }
    } else {
        FlushStep {
            send_batch_first: batched is Some && batched != item.run,
            outcome: FlushOutcome::Planned(
                outbound_plan(item.len as int, item.route, staged_for(items, n)),
            ),
        }
    }
}

/// All the datagram bytes the backlog could encode to.
pub open spec fn encoded_total(items: Seq<FlushItem>, n: int) -> int
    decreases n,
{
    if n <= 0 {
        0
    } else {
        encoded_total(items, n - 1) + items[n - 1].encoded_len
    }
}

proof fn lemma_staged_within_total(items: Seq<FlushItem>, n: int)
    requires
        0 <= n <= items.len(),
    ensures
        0 <= flush_state(items, n).1 <= encoded_total(items, n),
    decreases n,
{
    if n > 0 {
        lemma_staged_within_total(items, n - 1);
    }
}

proof fn lemma_total_monotone(items: Seq<FlushItem>, m: int, n: int)
    requires
        0 <= m <= n <= items.len(),
    ensures
        encoded_total(items, m) <= encoded_total(items, n),
    decreases n - m,
{
    if m < n {
        lemma_total_monotone(items, m, n - 1);
    }
}

/// Flush the packets buffered while a peer's on-demand connection came up.
/// When the dial failed every packet is dropped as having no peer. Otherwise
/// each packet is routed afresh and prepared against its route; consecutive
/// packets on one route (one network handle, one connection) are batched,
/// and a route change first hands the batch so far to its connection and
/// resets the staged bytes, so every packet is measured against what its own
/// run already holds. `send_last_batch` says whether a batch remains to be
/// handed over at the end.
pub fn plan_flush(connected: bool, items: &[FlushItem]) -> (plan: (Vec<FlushStep>, bool))
    requires
        encoded_total(items@, items@.len() as int) <= usize::MAX,
    ensures
        plan.0@.len() == items@.len(),
        !connected ==> !plan.1 && forall|i: int|
            0 <= i < items@.len() ==> plan.0@[i] == (FlushStep {
                send_batch_first: false,
                outcome: FlushOutcome::DialFailed,
            }),
        connected ==> plan.1 == flush_state(items@, items@.len() as int).0 is Some && forall|
            i: int,
        |
            0 <= i < items@.len() ==> plan.0@[i] == flush_step(items@, i),
{
    let mut steps: Vec<FlushStep> = Vec::new();
    if !connected {
        let mut i: usize = 0;
        while i < items.len()
            invariant
                i <= items@.len(),
                steps@.len() == i,
                forall|k: int|
                    0 <= k < i ==> steps@[k] == (FlushStep {
                        send_batch_first: false,
                        outcome: FlushOutcome::DialFailed,
                    }),
            decreases items@.len() - i,
        {
            steps.push(FlushStep { send_batch_first: false, outcome: FlushOutcome::DialFailed });
            i = i + 1;
        }
        return (steps, false);
    }
    let mut batched: Option<(u16, usize)> = None;
    let mut staged: usize = 0;
    let mut i: usize = 0;
    while i < items.len()
        invariant
            i <= items@.len(),
            steps@.len() == i,
            encoded_total(items@, items@.len() as int) <= usize::MAX,
            (batched, staged as int) == flush_state(items@, i as int),
            forall|k: int| 0 <= k < i ==> steps@[k] == flush_step(items@, k),
        decreases items@.len() - i,
    {
        let item = items[i];
        proof {
            lemma_staged_within_total(items@, i as int);
            lemma_total_monotone(items@, i + 1, items@.len() as int);
        }
        let step = if !item.parsed {
            FlushStep { send_batch_first: false, outcome: FlushOutcome::Malformed }
        } else {
            match item.run {
                None => FlushStep { send_batch_first: false, outcome: FlushOutcome::NoRoute },
                Some(run) => {
                    let ends = match batched {
                        Some(b) => !run_continues(Some(b), run),
                        None => false,
                    };
                    if ends {
                        batched = None;
                        staged = 0;
                    }
                    let plan = plan_outbound(item.len, &item.route, staged);
                    match plan {
                        OutboundPlan::Drop { .. } => {},
                        _ => {
                            assert(staged + item.encoded_len <= encoded_total(items@, i + 1));
                            batched = Some(run);
                            staged = staged + item.encoded_len;
                        },
                    }
                    FlushStep { send_batch_first: ends, outcome: FlushOutcome::Planned(plan) }
                },
            }
        };
        steps.push(step);
        i = i + 1;
    }
    let last = batched.is_some();
    (steps, last)
}

/// The bytes of the packets `lo..n` of a backlog that the flush planned to
/// put on the wire (sent whole or fragmented), as encoded.
pub open spec fn planned_bytes(items: Seq<FlushItem>, lo: int, n: int) -> int
    decreases n - lo,
{
    if n <= lo {
        0
    } else {
        planned_bytes(items, lo, n - 1) + (if flush_step(items, n - 1).outcome matches FlushOutcome::Planned(
            p,
        ) && !(p is Drop) {
            items[n - 1].encoded_len as int
        } else {
            0
        })
    }
}

proof fn lemma_no_batch_no_bytes(items: Seq<FlushItem>, m: int)
    requires
        0 <= m <= items.len(),
    ensures
        flush_state(items, m).1 >= 0,
        flush_state(items, m).0 is None ==> flush_state(items, m).1 == 0,
    decreases m,
{
    if m > 0 {
        lemma_no_batch_no_bytes(items, m - 1);
    }
}

/// The flush's state before packet `m` of a run `lo..=n` (packets on one
/// route, with only unparsed or unrouted ones between them, after a packet
/// on another route or at the start).
spec fn run_state_ok(items: Seq<FlushItem>, lo: int, n: int, m: int) -> bool {
    let (b, st) = flush_state(items, m);
    ||| b is None && st == 0 && planned_bytes(items, lo, m) == 0
    ||| b == items[n].run && st == planned_bytes(items, lo, m)
    ||| b is Some && b != items[n].run && planned_bytes(items, lo, m) == 0
}

proof fn lemma_run_state(items: Seq<FlushItem>, lo: int, n: int, m: int)
    requires
        0 <= lo <= m <= n < items.len(),
        items[n].parsed,
        items[n].run is Some,
        forall|k: int|
            lo <= k < n ==> !(#[trigger] items[k]).parsed || items[k].run is None || items[k].run
                == items[n].run,
        lo == 0 || (items[lo - 1].parsed && items[lo - 1].run is Some && items[lo - 1].run
            != items[n].run),
    ensures
        run_state_ok(items, lo, n, m),
    decreases m - lo,
{
    if m == lo {
        if lo > 0 {
            lemma_no_batch_no_bytes(items, lo - 1);
        }
    } else {
        lemma_run_state(items, lo, n, m - 1);
        lemma_no_batch_no_bytes(items, m - 1);
        let item = items[m - 1];
        assert(lo <= m - 1 < n);
        assert(planned_bytes(items, lo, m) == planned_bytes(items, lo, m - 1) + (if flush_step(
            items,
            m - 1,
        ).outcome matches FlushOutcome::Planned(p) && !(p is Drop) {
            item.encoded_len as int
        } else {
            0
        }));
    }
}

/// The flush keeps each run's drop-newest budget with exactly the bytes the
/// run has planned to send: before a backlog packet is prepared, the staged
/// bytes it is measured against are the encoded lengths of the earlier
/// packets of its run (since the last packet on another route, or the start)
/// that were planned to be sent. A packet the flush drops (firewall, MTU,
/// backpressure, no handle) stages nothing, nor does one that is unparsed or
/// unrouted.
pub proof fn lemma_flush_stages_only_planned_sends(items: Seq<FlushItem>, lo: int, n: int)
    requires
        0 <= lo <= n < items.len(),
        items[n].parsed,
        items[n].run is Some,
        forall|k: int|
            lo <= k < n ==> !(#[trigger] items[k]).parsed || items[k].run is None || items[k].run
                == items[n].run,
        lo == 0 || (items[lo - 1].parsed && items[lo - 1].run is Some && items[lo - 1].run
            != items[n].run),
    ensures
        staged_for(items, n) == planned_bytes(items, lo, n),
        flush_step(items, n).outcome == FlushOutcome::Planned(
            outbound_plan(items[n].len as int, items[n].route, planned_bytes(items, lo, n)),
        ),
{
    lemma_run_state(items, lo, n, n);
}

/// The flush keeps the drop-newest budget per run: a packet sent during a
/// flush fits its connection's send buffer beside the bytes its run already
/// staged, and every sent packet passed the firewall and MTU checks.
pub proof fn lemma_flush_keeps_the_budget(items: Seq<FlushItem>, n: int)
    requires
        0 <= n < items.len(),
        flush_step(items, n).outcome matches FlushOutcome::Planned(p) && !(p is Drop),
    ensures
        items[n].parsed,
        items[n].run is Some,
        !items[n].route.firewall_denies,
        items[n].len <= items[n].route.receive_mtu,
        items[n].route.wire_size is Some,
        staged_for(items, n) + items[n].route.wire_size.unwrap() <= items[n].route.send_space,
{
    let item = items[n];
    lemma_sent_packets_fit(item.len as int, item.route, staged_for(items, n));
}

} // verus!

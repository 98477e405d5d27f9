use vstd::prelude::*;

use crate::checksum::{
    csum_replace2, csum_update, internet_checksum, lemma_csum_update_matches_recompute, word_sum,
};
use crate::packet::{be16, be_hi, be_lo, put_be16, IpAddr, PacketInfo, PROTO_TCP};

verus! {

/// The port a stock `ssh` client targets (`ssh user@host.ray`).
pub const SSH_PORT: u16 = 22;

/// Internal port the embedded SSH server binds. Mesh `:22` is translated to
/// and from this port by the userspace NAT.
pub const SSH_LISTEN_PORT: u16 = 30022;

/// Userspace NAT that maps this node's mesh `:22` to and from the embedded SSH
/// server's internal listen port. Inbound (peer to us) rewrites the
/// destination `22 -> listen`; outbound (us to peer) rewrites the source
/// `listen -> 22`. Active only while mesh SSH is on.
///
/// The NAT lives in a set-once cell (`Option<SshNat>`, `None` until
/// registered) that the process keeps for its whole life.
#[derive(Debug, Clone, Copy, PartialEq, Eq, Structural)]
pub struct SshNat {
    pub active: bool,
    /// This node's mesh IPv6 address.
    pub v6: u128,
    pub listen_port: u16,
}

/// The cell after a registration: the first one wins.
pub open spec fn registered(cell: Option<SshNat>, v6: u128, listen_port: u16) -> Option<SshNat> {
    match cell {
        Some(entry) => Some(entry),
        None => Some(SshNat { active: false, v6, listen_port }),
    }
}

/// The cell after the NAT is switched `on` or off; an empty cell stays empty.
pub open spec fn toggled(cell: Option<SshNat>, on: bool) -> Option<SshNat> {
    match cell {
        Some(entry) => Some(SshNat { active: on, ..entry }),
        None => None,
    }
}

/// Register this node's mesh address and SSH listen port. The first
/// registration wins, as with a set-once cell; the NAT starts inactive.
pub fn init_ssh_nat(cell: &mut Option<SshNat>, v6: u128, listen_port: u16)
    ensures
        *final(cell) == registered(*old(cell), v6, listen_port),
{
    if cell.is_none() {
        *cell = Some(SshNat { active: false, v6, listen_port });
    }
}

/// Toggle the SSH port NAT (on when the mesh SSH server is running). A cell
/// that was never registered stays empty.
pub fn set_ssh_nat_active(cell: &mut Option<SshNat>, on: bool)
    ensures
        *final(cell) == toggled(*old(cell), on),
{
    if let Some(entry) = cell {
        entry.active = on;
    }
}

/// The NAT in force: registered and active.
pub open spec fn active_nat(cell: Option<SshNat>) -> Option<SshNat> {
    match cell {
        Some(entry) => if entry.active {
            Some(entry)
        } else {
            None
        },
        None => None,
    }
}

/// The NAT config, or `None` when unset or inactive.
pub fn ssh_nat(cell: &Option<SshNat>) -> (in_force: Option<SshNat>)
    ensures
        in_force == active_nat(*cell),
{
    match cell {
        Some(entry) => if entry.active {
            Some(*entry)
        } else {
            None
        },
        None => None,
    }
}

impl SshNat {
    /// Whether `ip` is this node's mesh IPv6 address.
    pub fn is_ours(&self, ip: IpAddr) -> (ours: bool)
        ensures
            ours <==> ip == IpAddr::V6(self.v6),
    {
        match ip {
            IpAddr::V6(v) => v == self.v6,
            IpAddr::V4(_) => false,
        }
    }
}

/// Length of the IP header the NAT skips to reach the TCP header: the IHL of
/// an IPv4 packet, the fixed 40 bytes of an IPv6 one (mesh packets carry no
/// extension headers), nothing for any other first nibble.
pub open spec fn ip_header_len(pkt: Seq<u8>) -> Option<int> {
    if pkt.len() == 0 {
        None
    } else if pkt[0] / 16 == 4 {
        Some((pkt[0] % 16) * 4)
    } else if pkt[0] / 16 == 6 {
        Some(40)
    } else {
        None
    }
}

/// What the NAT does to a packet: `(ip header length, port offset, old port,
/// new port)`, or `None` when it leaves the packet alone.
pub open spec fn ssh_rewrite_plan(
    pkt: Seq<u8>,
    info: PacketInfo,
    inbound: bool,
    cell: Option<SshNat>,
) -> Option<(int, int, u16, u16)> {
    match active_nat(cell) {
        None => None,
        Some(entry) => if info.protocol != PROTO_TCP {
            None
        } else {
            match ip_header_len(pkt) {
                None => None,
                Some(ihl) => if pkt.len() < ihl + 18 {
                    None
                } else if inbound {
                    if info.dst_ip == IpAddr::V6(entry.v6) && info.dst_port == SSH_PORT {
                        Some((ihl, ihl + 2, SSH_PORT, entry.listen_port))
                    } else {
                        None
                    }
                } else {
                    if info.src_ip == IpAddr::V6(entry.v6) && info.src_port == entry.listen_port {
                        Some((ihl, ihl, entry.listen_port, SSH_PORT))
                    } else {
                        None
                    }
                },
            }
        },
    }
}

/// The packet after the NAT wrote `new` over the port at `port_off` and
/// patched the TCP checksum (at `ihl + 16`) for the change from `old`.
pub open spec fn ssh_rewritten(
    pkt: Seq<u8>,
    ihl: int,
    port_off: int,
    old: u16,
    new: u16,
) -> Seq<u8> {
    let ck = ihl + 16;
    let ported = put_be16(pkt, port_off, new);
    put_be16(ported, ck, csum_update(be16(pkt[ck], pkt[ck + 1]), old, new))
}

/// Rewrite a TCP port in place for the SSH NAT, fixing the TCP checksum. When
/// `inbound`, maps dest `22 -> listen_port` (packet addressed to our mesh
/// `:22`); otherwise maps source `listen_port -> 22` (our SSH server's reply).
/// Returns `true` if it rewrote. `info` is the already-parsed header and
/// `cell` the process's NAT cell.
pub fn rewrite_ssh_port(
    pkt: &mut [u8],
    info: &PacketInfo,
    inbound: bool,
    cell: &Option<SshNat>,
) -> (rewrote: bool)
    ensures
        rewrote <==> ssh_rewrite_plan(old(pkt)@, *info, inbound, *cell) is Some,
        match ssh_rewrite_plan(old(pkt)@, *info, inbound, *cell) {
            Some((ihl, port_off, o, n)) => final(pkt)@ == ssh_rewritten(
                old(pkt)@,
                ihl,
                port_off,
                o,
                n,
            ),
            None => final(pkt)@ == old(pkt)@,
        },
{
    let entry = match ssh_nat(cell) {
        Some(entry) => entry,
        None => return false,
    };
    if info.protocol != PROTO_TCP {
        return false;  // TCP only
    }
    if pkt.len() == 0 {
        return false;
    }
    let version = pkt[0] / 16;
    let ihl: usize = if version == 4 {
        ((pkt[0] % 16) as usize) * 4
    } else if version == 6 {
        40  // rayfish packets carry no IPv6 extension headers
    } else {
        return false;
    };
    if pkt.len() < ihl + 18 {
        return false;
    }
    let (port_off, old, new) = if inbound {
        if !entry.is_ours(info.dst_ip) || info.dst_port != SSH_PORT {
            return false;
        }
        (ihl + 2, SSH_PORT, entry.listen_port)
    } else {
        if !entry.is_ours(info.src_ip) || info.src_port != entry.listen_port {
            return false;
        }
        (ihl, entry.listen_port, SSH_PORT)
    };
    let ghost original = pkt@;
    pkt[port_off] = (new / 256) as u8;
    pkt[port_off + 1] = (new % 256) as u8;
    let ck_off = ihl + 16;
    assert(pkt@[ck_off as int] == original[ck_off as int]);
    assert(pkt@[ck_off + 1] == original[ck_off + 1]);
    let old_ck: u16 = (pkt[ck_off] as u16) * 256 + pkt[ck_off + 1] as u16;
    let new_ck = csum_replace2(old_ck, old, new);
    pkt[ck_off] = (new_ck / 256) as u8;
    pkt[ck_off + 1] = (new_ck % 256) as u8;
    assert(pkt@ =~= ssh_rewritten(original, ihl as int, port_off as int, old, new));
    true
}

/// A registered NAT is in force exactly while it is switched on, and a
/// registration never overrides an earlier one.
pub proof fn lemma_nat_in_force_follows_toggle(cell: Option<SshNat>, v6: u128, port: u16, on: bool)
    ensures
        (active_nat(toggled(registered(cell, v6, port), on)) is Some) == on,
        registered(registered(cell, v6, port), v6, port) == registered(cell, v6, port),
        active_nat(registered(None, v6, port)) is None,
{
}

/// While the NAT is not in force no packet is touched, in either direction.
pub proof fn lemma_inactive_nat_rewrites_nothing(
    pkt: Seq<u8>,
    info: PacketInfo,
    inbound: bool,
    cell: Option<SshNat>,
)
    requires
        active_nat(cell) is None,
    ensures
        ssh_rewrite_plan(pkt, info, inbound, cell) is None,
{
}

/// Writing a 16-bit value in network order and reading it back gives it.
pub proof fn lemma_be16_round_trip(x: u16)
    ensures
        be16(be_hi(x), be_lo(x)) == x,
{
}

/// The rewrite keeps the TCP checksum valid. If the checksum field held the
/// Internet checksum of some words (the pseudo-header and segment the
/// checksum covers) in which word `k` is the port being rewritten, then
/// afterwards the port reads the new value and the checksum field holds the
/// checksum of those words with word `k` replaced: exactly what a full
/// recomputation gives, unless the new words sum to zero.
pub proof fn lemma_rewrite_keeps_checksum_valid(
    pkt: Seq<u8>,
    info: PacketInfo,
    inbound: bool,
    cell: Option<SshNat>,
    words: Seq<u16>,
    k: int,
)
    requires
        ssh_rewrite_plan(pkt, info, inbound, cell) is Some,
        0 <= k < words.len(),
        ({
            let (ihl, port_off, o, n) = ssh_rewrite_plan(pkt, info, inbound, cell).unwrap();
            &&& internet_checksum(words) == be16(pkt[ihl + 16], pkt[ihl + 17])
            &&& words[k] == o
            &&& word_sum(words.update(k, n)) >= 1
        }),
    ensures
        ({
            let (ihl, port_off, o, n) = ssh_rewrite_plan(pkt, info, inbound, cell).unwrap();
            let out = ssh_rewritten(pkt, ihl, port_off, o, n);
            &&& be16(out[port_off], out[port_off + 1]) == n
            &&& be16(out[ihl + 16], out[ihl + 17]) == internet_checksum(words.update(k, n))
            &&& out.len() == pkt.len()
        }),
{
    let (ihl, port_off, o, n) = ssh_rewrite_plan(pkt, info, inbound, cell).unwrap();
    let ck = csum_update(be16(pkt[ihl + 16], pkt[ihl + 17]), o, n);
    lemma_csum_update_matches_recompute(words, k, n);
    lemma_be16_round_trip(n);
    lemma_be16_round_trip(ck);
}

} // verus!

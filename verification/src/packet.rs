use vstd::prelude::*;

verus! {

/// An IP address as the data path reads it: IPv4 as its 32-bit big-endian
/// value, IPv6 as its 128-bit big-endian value.
#[derive(Debug, Clone, Copy, PartialEq, Eq, Structural)]
pub enum IpAddr {
    V4(u32),
    V6(u128),
}

/// The header fields of an IP packet that the firewall, the SSH NAT and the
/// forwarding decisions look at.
#[derive(Debug, Clone, Copy, PartialEq, Eq, Structural)]
pub struct PacketInfo {
    pub src_ip: IpAddr,
    pub dst_ip: IpAddr,
    pub protocol: u8,
    pub src_port: u16,
    pub dst_port: u16,
    pub tcp_flags: u8,
    pub icmp_type: u8,
    pub icmp_id: u16,
}

/// IP protocol number of TCP.
pub const PROTO_TCP: u8 = 6;

/// The big-endian 16-bit value of two bytes.
pub open spec fn be16(hi: u8, lo: u8) -> u16 {
    (hi * 256 + lo) as u16
}

/// The high byte of a 16-bit value in network order.
pub open spec fn be_hi(x: u16) -> u8 {
    (x / 256) as u8
}

/// The low byte of a 16-bit value in network order.
pub open spec fn be_lo(x: u16) -> u8 {
    (x % 256) as u8
}

/// `bytes` with the big-endian encoding of `x` written at `at` and `at + 1`.
pub open spec fn put_be16(bytes: Seq<u8>, at: int, x: u16) -> Seq<u8> {
    bytes.update(at, be_hi(x)).update(at + 1, be_lo(x))
}

} // verus!

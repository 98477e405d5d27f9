use vstd::prelude::*;

use crate::packet::{be16, be_hi, be_lo};
use crate::roster::EndpointId;

verus! {

/// An immutable byte buffer of the `bytes` crate; the data path hands packets
/// around as these.
#[verifier::external_type_specification]
#[verifier::external_body]
pub struct ExBytes(bytes::Bytes);

/// A growable byte buffer of the `bytes` crate.
#[verifier::external_type_specification]
#[verifier::external_body]
pub struct ExBytesMut(bytes::BytesMut);

/// The bytes a `bytes::Bytes` holds, in order.
pub uninterp spec fn bytes_contents(b: bytes::Bytes) -> Seq<u8>;

/// The bytes a `bytes::BytesMut` holds, in order.
pub uninterp spec fn bytes_mut_contents(b: bytes::BytesMut) -> Seq<u8>;

/// `bytes::BytesMut::with_capacity`: an empty buffer with room reserved for
/// `capacity` bytes. The capacity is an allocation hint; the contents are empty.
#[verifier::external_body]
fn bytes_mut_with_capacity(capacity: usize) -> (buf: bytes::BytesMut)
    requires
        capacity <= isize::MAX,
    ensures
        bytes_mut_contents(buf) == Seq::<u8>::empty(),
{
    bytes::BytesMut::with_capacity(capacity)
}

/// `bytes::BytesMut::extend_from_slice`: appends `more` after the current
/// contents (growing the buffer when needed).
#[verifier::external_body]
fn bytes_mut_extend(buf: &mut bytes::BytesMut, more: &[u8])
    requires
        bytes_mut_contents(*old(buf)).len() + more@.len() <= isize::MAX,
    ensures
        bytes_mut_contents(*final(buf)) == bytes_mut_contents(*old(buf)) + more@,
{
    buf.extend_from_slice(more)
}

/// `bytes::BytesMut::freeze`: the same contents as an immutable `Bytes`.
#[verifier::external_body]
fn bytes_mut_freeze(buf: bytes::BytesMut) -> (frozen: bytes::Bytes)
    ensures
        bytes_contents(frozen) == bytes_mut_contents(buf),
{
    buf.freeze()
}

/// Bytes of the per-datagram network handle tag: a big-endian `u16` prefixed
/// to every mesh datagram. One connection carries every network two peers
/// share, so the handle names the datagram's network. `0` is reserved as
/// invalid.
pub const TAG_LEN: usize = 2;

/// The on-wire mesh datagram `[handle:u16 BE][ip packet...]`.
pub open spec fn tagged(handle: u16, payload: Seq<u8>) -> Seq<u8> {
    seq![be_hi(handle), be_lo(handle)] + payload
}

/// A received mesh datagram split into its handle and IP packet, or `None`
/// when it is too short to carry a tag.
pub open spec fn untagged(datagram: Seq<u8>) -> Option<(u16, Seq<u8>)> {
    if datagram.len() < TAG_LEN {
        None
    } else {
        Some((be16(datagram[0], datagram[1]), datagram.subrange(TAG_LEN as int, datagram.len() as int)))
    }
}

/// Prefix `payload` (a raw IP packet) with its outbound network `handle`,
/// producing the on-wire mesh datagram `[handle:u16 BE][ip packet...]`.
pub fn tag_datagram(handle: u16, payload: &[u8]) -> (datagram: bytes::Bytes)
    requires
        payload@.len() + TAG_LEN <= isize::MAX,
    ensures
        bytes_contents(datagram) == tagged(handle, payload@),
{
    let mut buf = bytes_mut_with_capacity(TAG_LEN + payload.len());
    let prefix: [u8; 2] = [(handle / 256) as u8, (handle % 256) as u8];
    bytes_mut_extend(&mut buf, prefix.as_slice());
    bytes_mut_extend(&mut buf, payload);
    assert(prefix@ =~= seq![be_hi(handle), be_lo(handle)]);
    bytes_mut_freeze(buf)
}

/// Split a received mesh datagram into its network `handle` and the IP-packet
/// slice. `None` if it is too short to carry a tag.
pub fn untag_datagram(datagram: &[u8]) -> (split: Option<(u16, &[u8])>)
    ensures
        split matches Some((h, p)) ==> untagged(datagram@) == Some((h, p@)),
        split is None ==> untagged(datagram@) is None,
{
    if datagram.len() < TAG_LEN {
        return None;
    }
    let handle: u16 = (datagram[0] as u16) * 256 + datagram[1] as u16;
    Some((handle, &datagram[TAG_LEN..datagram.len()]))
}

/// A tagged datagram untags to exactly the handle and packet it was built
/// from, so the receiver always recovers the sender's network and packet.
pub proof fn lemma_untag_inverts_tag(handle: u16, payload: Seq<u8>)
    ensures
        untagged(tagged(handle, payload)) == Some((handle, payload)),
{
    let d = tagged(handle, payload);
    assert(d.subrange(TAG_LEN as int, d.len() as int) =~= payload);
}

/// Tagging what an untag produced rebuilds the datagram byte for byte.
pub proof fn lemma_tag_inverts_untag(datagram: Seq<u8>)
    requires
        untagged(datagram) is Some,
    ensures
        tagged(untagged(datagram).unwrap().0, untagged(datagram).unwrap().1) == datagram,
{
    let (h, p) = untagged(datagram).unwrap();
    assert(tagged(h, p) =~= datagram);
}

/// The handle announcements for the networks in `handles` (name, handle)
/// whose public key is known (`public_keys[i]` for entry `i`), in order.
pub open spec fn announced_handles(
    handles: Seq<(String, u16)>,
    public_keys: Seq<Option<EndpointId>>,
    n: int,
) -> Seq<(EndpointId, u16)>
    decreases n,
{
    if n <= 0 {
        Seq::empty()
    } else {
        let earlier = announced_handles(handles, public_keys, n - 1);
        match public_keys[n - 1] {
            Some(key) => earlier.push((key, handles[n - 1].1)),
            None => earlier,
        }
    }
}

/// The entries of the handle table announced to a peer: each outbound
/// network handle paired with its network's public key, the networks whose
/// key is unknown left out. An empty result means nothing is announced.
pub fn network_handle_entries(
    handles: &[(String, u16)],
    public_keys: &[Option<EndpointId>],
) -> (entries: Vec<(EndpointId, u16)>)
    requires
        public_keys@.len() == handles@.len(),
    ensures
        entries@ == announced_handles(handles@, public_keys@, handles@.len() as int),
{
    let mut entries: Vec<(EndpointId, u16)> = Vec::new();
    let mut i: usize = 0;
    while i < handles.len()
        invariant
            i <= handles@.len(),
            public_keys@.len() == handles@.len(),
            entries@ == announced_handles(handles@, public_keys@, i as int),
        decreases handles@.len() - i,
    {
        match public_keys[i] {
            Some(key) => entries.push((key, handles[i].1)),
            None => {},
        }
        i = i + 1;
    }
    entries
}

} // verus!

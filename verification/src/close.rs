use vstd::prelude::*;

use crate::roster::EndpointId;

verus! {

/// Application close code a peer sends when it deliberately leaves a network
/// (`ray leave`). Only this close prunes the canonical member list.
pub const LEAVE_CODE: u32 = 0x1ea5e;

/// Application close code used to drop a peer that floods the control plane.
/// The peer did not depart, so it is treated as a non-intentional disconnect.
pub const ABUSE_CODE: u32 = 0xab05e;

/// Application close code that tears down a link to a peer the verified roster
/// no longer lists. Transport teardown, never authority over membership.
pub const KICK_CODE: u32 = 0x14ced;

/// Application close code an on-demand node sends when it closes an idle link.
pub const IDLE_CODE: u32 = 0x1d1e;

/// Application close code sent when a peer has selected another live
/// connection for this identity.
pub const REPLACED_CONNECTION_CODE: u32 = 0x2e91aced;

/// How a peer's connection ended, from the side that observed the close.
/// Membership is decided by the signed roster alone; a close code is a hint.
#[derive(Debug, Clone, Copy, PartialEq, Eq, Structural)]
pub enum CloseReason {
    /// Idle timeout, reset, control-flood close or any non-graceful drop.
    Transient,
    /// The peer closed with [`LEAVE_CODE`]: it deliberately departed.
    Left,
    /// The peer closed with [`KICK_CODE`]: it removed us from its view.
    Kicked,
    /// The peer closed with [`IDLE_CODE`]: it let an idle connection go.
    Idle,
    /// The peer selected another connection for this identity.
    Replaced,
}

impl CloseReason {
    /// Whether a coordinator should prune the peer from the signed roster on
    /// this close. Only a deliberate leave does; a kick never evicts the closer.
    pub fn prunes_member(self) -> (prunes: bool)
        ensures
            prunes <==> self == CloseReason::Left,
    {
        matches!(self, CloseReason::Left)
    }
}

/// Sent when a peer connection drops, to the reconnect loop (joiner) or the
/// cleanup task (coordinator). One connection carries every network two peers
/// share, so a drop tears the peer down across all of them at once.
#[derive(Debug, Clone, Copy, PartialEq, Eq)]
pub struct DisconnectEvent {
    pub endpoint_id: EndpointId,
    /// The peer's mesh IPv6 address.
    pub ipv6: u128,
    /// How the connection closed; only [`CloseReason::Left`] prunes the peer
    /// from a coordinated roster.
    pub reason: CloseReason,
    /// The stable id of the connection that dropped, so a consumer can tell
    /// whether the connection stored for this peer is still the one that
    /// died. `None` for a synthetic kick not tied to a live connection.
    pub conn_stable_id: Option<usize>,
}

} // verus!

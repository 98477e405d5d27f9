//! Verified core of the Rayfish mesh daemon: datagram framing, the SSH port
//! NAT and its incremental checksum, inbound packet admission, peer close
//! reasons, IPC caller authorization, roster projections and the
//! confirmation lines of the settings commands.

pub mod authz;
pub mod checksum;
pub mod close;
pub mod datagram;
pub mod dialing;
pub mod files;
pub mod inbound;
pub mod outbound;
pub mod packet;
pub mod reader;
pub mod rename;
pub mod roster;
pub mod settings;
pub mod ssh_nat;

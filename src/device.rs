//! Network devices, the addresses they are bound to, and the properties
//! reported for each.

use vstd::prelude::*;

verus! {

/// Memory kinds a device can transfer from: host memory only.
pub const NCCL_PTR_HOST: i32 = 1;

/// Number of communicators a device advertises.
pub const DEFAULT_SOCKET_MAX_COMMS: i32 = 65536;

/// Backlog of a listening socket.
pub const DEFAULT_LISTEN_BACKLOG: i32 = 16384;

/// A socket address as plain values.
#[derive(Debug, Clone, Copy, PartialEq, Eq)]
pub enum SocketAddress {
    V4 { ip: [u8; 4], port: u16 },
    V6 { ip: [u8; 16], port: u16, scope_id: u32 },
    /// An address of a family that cannot carry TCP (a link-layer or a Unix address).
    Unsupported,
}

impl SocketAddress {
    /// The address can carry TCP.
    pub open spec fn is_inet(&self) -> bool {
        !(self is Unsupported)
    }
}

/// What a peer needs to dial a listener back.
#[derive(Debug, Clone, Copy, PartialEq, Eq)]
pub struct SocketHandle {
    pub addr: SocketAddress,
}

/// One network interface usable for transfers.
#[derive(Debug, Clone)]
pub struct NCCLSocketDev {
    pub interface_name: String,
    pub pci_path: String,
    /// The address that listeners on this device bind to.
    pub addr: SocketAddress,
    /// Link speed in Mbps.
    pub speed: i32,
}

/// Properties reported for a device.
#[derive(Debug, Clone)]
pub struct NCCLNetProperties {
    pub name: String,
    pub pci_path: String,
    pub guid: u64,
    pub ptr_support: i32,
    /// Port speed in Mbps.
    pub speed: i32,
    pub port: i32,
    pub max_comms: i32,
}

} // verus!

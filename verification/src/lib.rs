//! Packet engine of a traceroute path extender.
//!
//! A single machine answers on behalf of a whole virtual subnet: probes whose
//! TTL or hop limit is still below the configured number of virtual hosts are
//! answered with a forged *time exceeded* message from a synthetic address,
//! every other probe is answered as the real destination. To the prober the
//! path looks longer by as many hops as there are virtual hosts.
//!
//! - [`ip_addrs`]: prefix lengths, netmasks and the n-th address of a subnet.
//! - [`wire`]: big-endian integers as header fields.
//! - [`checksum`]: the Internet checksum and what it promises the receiver.
//! - [`packets`]: what arrives on a TUN device and what is written back.
//! - [`argparse`]: the configuration and the rules it has to meet.
//! - [`tun_management`]: what each TUN device is set up with.
//! - [`tun_loop`]: what to do next on a TUN device.
//!
//! The library does no input or output. Every function is verified against
//! its contract, with the one exception of the two functions in [`checksum`]
//! that hand the arithmetic to `pnet_packet`.

pub mod argparse;
pub mod checksum;
pub mod ip_addrs;
pub mod packets;
pub mod tun_loop;
pub mod tun_management;
pub mod wire;

//! Handling of the datagrams that arrive on a TUN device.
//!
//! A TUN device in IP mode hands over one datagram with each read, without
//! any framing in front of it. The first four bits tell the family.

use crate::argparse::Arguments;
use crate::wire::reply_bytes;
use vstd::prelude::*;

pub mod icmp;
pub mod icmp6;
pub mod ipv4;
pub mod ipv6;

use icmp::message_holds;
use icmp6::message_holds6;
use ipv4::{
    handle_ipv4_packet, ipv4_destination, ipv4_header_holds, ipv4_payload, ipv4_response,
    ipv4_source, ipv4_total_length, ipv4_ttl, is_ipv4_datagram,
    lemma_ipv4_response_is_well_formed, Ipv4Datagram,
};
use ipv6::{
    handle_ipv6_packet, ipv6_destination, ipv6_payload, ipv6_payload_length, ipv6_response,
    ipv6_source, is_ipv6_datagram, lemma_ipv6_response_is_well_formed, Ipv6Datagram,
};

verus! {

/// The version that a buffer declares in its first four bits.
pub open spec fn ip_version(buffer: Seq<u8>) -> u8 {
    buffer[0] / 16
}

/// The reply to what arrived in `buffer`, if there is one.
///
/// A buffer that declares version 4 is handled as an IPv4 datagram, one that
/// declares version 6 as an IPv6 datagram, and there is no reply where it is
/// not a whole datagram of its family. Any other buffer is dropped.
pub open spec fn reply_to(n_hosts: usize, buffer: Seq<u8>) -> Option<Seq<u8>> {
    if buffer.len() == 0 {
        None
    } else if ip_version(buffer) == 4 {
        if is_ipv4_datagram(buffer) {
            ipv4_response(n_hosts, buffer)
        } else {
            None
        }
    } else if ip_version(buffer) == 6 {
        if is_ipv6_datagram(buffer) {
            ipv6_response(n_hosts, buffer)
        } else {
            None
        }
    } else {
        None
    }
}

/// Every reply is a whole datagram of the family of what arrived, and it
/// goes to where that came from. An IPv4 reply has a header checksum that
/// holds, a total length that is its length on the wire and a time to live of
/// at least one. An IPv6 reply carries a message whose checksum holds under
/// the pseudo-header of the reply's own addresses.
pub proof fn lemma_reply_matches_request(n_hosts: usize, buffer: Seq<u8>)
    requires
        reply_to(n_hosts, buffer) is Some,
    ensures
        ip_version(buffer) == 4 || ip_version(buffer) == 6,
        ip_version(buffer) == 4 ==> {
            let reply = reply_to(n_hosts, buffer)->0;
            &&& is_ipv4_datagram(buffer)
            &&& is_ipv4_datagram(reply)
            &&& ipv4_destination(reply) == ipv4_source(buffer)
            &&& ipv4_header_holds(reply)
            &&& ipv4_total_length(reply) == reply.len()
            &&& ipv4_ttl(reply) >= 1
            &&& message_holds(ipv4_payload(reply))
        },
        ip_version(buffer) == 6 ==> {
            let reply = reply_to(n_hosts, buffer)->0;
            &&& is_ipv6_datagram(buffer)
            &&& is_ipv6_datagram(reply)
            &&& ipv6_destination(reply) == ipv6_source(buffer)
            &&& ipv6_payload_length(reply) == ipv6_payload(reply).len()
            &&& message_holds6(ipv6_payload(reply), ipv6_source(reply), ipv6_destination(reply))
        },
{
    if ip_version(buffer) == 4 {
        lemma_ipv4_response_is_well_formed(n_hosts, buffer);
    } else {
        lemma_ipv6_response_is_well_formed(n_hosts, buffer);
    }
}

/// A buffer that declares neither version 4 nor version 6 is dropped.
pub proof fn lemma_unknown_version_is_dropped(n_hosts: usize, buffer: Seq<u8>)
    requires
        buffer.len() == 0 || (ip_version(buffer) != 4 && ip_version(buffer) != 6),
    ensures
        reply_to(n_hosts, buffer) is None,
{
}

/// Handling the same buffer under the same configuration twice gives the same
/// reply, byte for byte, or no reply both times.
pub proof fn lemma_handle_is_deterministic(
    program_args: &Arguments,
    buffer: &[u8],
    first: Option<Vec<u8>>,
    second: Option<Vec<u8>>,
)
    requires
        call_ensures(handle, (program_args, buffer), first),
        call_ensures(handle, (program_args, buffer), second),
    ensures
        reply_bytes(first) == reply_bytes(second),
{
}

/// Handle what was read from a TUN device and optionally return what to write
/// back to it.
pub fn handle(program_args: &Arguments, buffer: &[u8]) -> (response: Option<Vec<u8>>)
    ensures
        reply_bytes(response) == reply_to(program_args.n_hosts, buffer@),
{
    if buffer.len() == 0 {
        return None;
    }
    let first: u8 = buffer[0];
    proof {
        assert(first >> 4 == first / 16) by (bit_vector);
    }
    // peek into the packet and see which family its header declares
    if (first >> 4) == 0b0100 {
        match Ipv4Datagram::new(buffer) {
            None => None,
            Some(packet) => handle_ipv4_packet(program_args, &packet),
        }
    } else if (first >> 4) == 0b0110 {
        match Ipv6Datagram::new(buffer) {
            None => None,
            Some(packet) => handle_ipv6_packet(program_args, &packet),
        }
    } else {
        None
    }
}

} // verus!

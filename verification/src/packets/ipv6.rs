//! IPv6 datagrams: the ones that arrive and the replies that leave.

use super::icmp::is_control_message;
use super::icmp6::{
    build_icmp6_destination_unreachable_response, build_icmp6_time_exceeded_response,
    destination_unreachable_message6, echo_response6, handle_icmp6_packet, lemma_echo_round_trip6,
    lemma_quoting_message6, message_holds6, time_exceeded_message6, Icmpv6Message,
    DESTINATION_UNREACHABLE_V6, ECHO_REPLY_V6, ECHO_REQUEST_V6, NEXT_HEADER_ICMPV6,
    PORT_UNREACHABLE_V6, TIME_EXCEEDED_V6,
};
use crate::argparse::Arguments;
use crate::ip_addrs::{
    calc_netmask_size_with_n_hosts6, get_nth_address_in_network6, in_subnet6,
    lemma_nth_address6_in_subnet, netmask_size6, nth_address6, Ipv6Address,
};
use crate::wire::{
    be_bytes, be_value, lemma_be_bytes_len, lemma_be_value_bound, lemma_be_value_of_be_bytes,
    lemma_byte_capacity_values, push_be, push_bytes, read_be, read_be_u16, reply_bytes,
};
use vstd::prelude::*;
use vstd::slice::slice_subrange;

verus! {

/// The next-header value of TCP.
pub const NEXT_HEADER_TCP: u8 = 6;

/// The next-header value of UDP.
pub const NEXT_HEADER_UDP: u8 = 17;

/// The hop limit of a *time exceeded* reply, which must reach the prober
/// whatever is left of the hop limit of the probe.
pub const FRESH_HOP_LIMIT: u8 = 64;

/// The length in bytes of the IPv6 header.
pub const IPV6_HEADER_LENGTH: usize = 40;

/// The payload length that a datagram declares.
pub open spec fn ipv6_payload_length(bytes: Seq<u8>) -> nat {
    be_value(bytes.subrange(4, 6))
}

/// The next-header value of a datagram.
pub open spec fn ipv6_next_header(bytes: Seq<u8>) -> u8 {
    bytes[6]
}

/// The hop limit of a datagram.
pub open spec fn ipv6_hop_limit(bytes: Seq<u8>) -> u8 {
    bytes[7]
}

/// The source address of a datagram.
pub open spec fn ipv6_source(bytes: Seq<u8>) -> u128 {
    be_value(bytes.subrange(8, 24)) as u128
}

/// The destination address of a datagram.
pub open spec fn ipv6_destination(bytes: Seq<u8>) -> u128 {
    be_value(bytes.subrange(24, 40)) as u128
}

/// What a datagram carries behind its header.
pub open spec fn ipv6_payload(bytes: Seq<u8>) -> Seq<u8> {
    bytes.skip(40)
}

/// Whether `bytes` are one whole IPv6 datagram: version 6, a whole header,
/// and a payload length that is the number of bytes behind the header.
pub open spec fn is_ipv6_datagram(bytes: Seq<u8>) -> bool {
    &&& bytes.len() >= 40
    &&& bytes[0] / 16 == 6
    &&& 40 + ipv6_payload_length(bytes) == bytes.len()
}

/// The header of a reply: version 6, traffic class and flow label zero,
/// next header ICMPv6.
pub open spec fn ipv6_header(
    payload_length: u16,
    hop_limit: u8,
    source: u128,
    destination: u128,
) -> Seq<u8> {
    seq![0x60u8, 0x00u8, 0x00u8, 0x00u8] + be_bytes(payload_length as nat, 2) + seq![
        NEXT_HEADER_ICMPV6,
        hop_limit,
    ] + be_bytes(source as nat, 16) + be_bytes(destination as nat, 16)
}

/// The hop limit of a reply to `request`: the one given, else the hop limit
/// of the request less one, if it has one to give.
pub open spec fn ipv6_reply_hop_limit(request: Seq<u8>, hop_limit: Option<u8>) -> Option<u8> {
    match hop_limit {
        Some(fresh) => Some(fresh),
        None => if ipv6_hop_limit(request) >= 1 {
            Some((ipv6_hop_limit(request) - 1) as u8)
        } else {
            None
        },
    }
}

/// The reply to `request` that carries `data` from the address `source`, if
/// one can be sent: it needs a hop limit and a payload length that fits its
/// field.
pub open spec fn ipv6_reply(
    request: Seq<u8>,
    source: u128,
    data: Seq<u8>,
    hop_limit: Option<u8>,
) -> Option<Seq<u8>> {
    match ipv6_reply_hop_limit(request, hop_limit) {
        Some(hops) => if data.len() <= 0xffff {
            Some(ipv6_header(data.len() as u16, hops, source, ipv6_source(request)) + data)
        } else {
            None
        },
        None => None,
    }
}

/// The address that stands for the hop limit of `request` in the virtual
/// subnet of its destination.
pub open spec fn ipv6_candidate(n_hosts: usize, request: Seq<u8>) -> u128 {
    nth_address6(
        ipv6_hop_limit(request) as u128,
        netmask_size6(n_hosts) as usize,
        ipv6_destination(request),
    )
}

/// Whether `request` is still on its way through the virtual hosts: its hop
/// limit is below the number of hosts and stands for another address than
/// its destination.
pub open spec fn ipv6_in_transit(n_hosts: usize, request: Seq<u8>) -> bool {
    ipv6_hop_limit(request) < n_hosts && ipv6_candidate(n_hosts, request) != ipv6_destination(
        request,
    )
}

/// The reply to the datagram `request`, if there is one.
///
/// A datagram in transit is answered by *time exceeded* from the address that
/// stands for its hop limit, with a fresh hop limit. One that has arrived is
/// answered as its destination: an echo request by an echo reply, UDP and TCP
/// by *port unreachable*, anything else not at all.
pub open spec fn ipv6_response(n_hosts: usize, request: Seq<u8>) -> Option<Seq<u8>> {
    let source = ipv6_source(request);
    let destination = ipv6_destination(request);
    if ipv6_in_transit(n_hosts, request) {
        let candidate = ipv6_candidate(n_hosts, request);
        ipv6_reply(
            request,
            candidate,
            time_exceeded_message6(request, candidate, source),
            Some(FRESH_HOP_LIMIT),
        )
    } else if ipv6_next_header(request) == NEXT_HEADER_ICMPV6 {
        if is_control_message(ipv6_payload(request)) {
            match echo_response6(ipv6_payload(request), destination, source) {
                Some(message) => ipv6_reply(request, destination, message, None),
                None => None,
            }
        } else {
            None
        }
    } else if ipv6_next_header(request) == NEXT_HEADER_UDP || ipv6_next_header(request)
        == NEXT_HEADER_TCP {
        ipv6_reply(
            request,
            destination,
            destination_unreachable_message6(request, destination, source),
            None,
        )
    } else {
        None
    }
}

/// Where the fields of a reply header stand in it.
pub proof fn lemma_ipv6_header_fields(
    payload_length: u16,
    hop_limit: u8,
    source: u128,
    destination: u128,
)
    ensures
        ({
            let header = ipv6_header(payload_length, hop_limit, source, destination);
            &&& header.len() == 40
            &&& header.subrange(0, 4) == seq![0x60u8, 0x00u8, 0x00u8, 0x00u8]
            &&& ipv6_payload_length(header) == payload_length
            &&& ipv6_next_header(header) == NEXT_HEADER_ICMPV6
            &&& ipv6_hop_limit(header) == hop_limit
            &&& ipv6_source(header) == source
            &&& ipv6_destination(header) == destination
        }),
{
    let header = ipv6_header(payload_length, hop_limit, source, destination);
    lemma_byte_capacity_values();
    lemma_be_bytes_len(payload_length as nat, 2);
    lemma_be_bytes_len(source as nat, 16);
    lemma_be_bytes_len(destination as nat, 16);
    lemma_be_value_of_be_bytes(payload_length as nat, 2);
    lemma_be_value_of_be_bytes(source as nat, 16);
    lemma_be_value_of_be_bytes(destination as nat, 16);
    assert(header.subrange(0, 4) =~= seq![0x60u8, 0x00u8, 0x00u8, 0x00u8]);
    assert(header.subrange(4, 6) =~= be_bytes(payload_length as nat, 2));
    assert(header.subrange(8, 24) =~= be_bytes(source as nat, 16));
    assert(header.subrange(24, 40) =~= be_bytes(destination as nat, 16));
}

/// A reply is a whole IPv6 datagram of its own: traffic class and flow label
/// are zero, its payload length is the length of what it carries, it comes
/// from `source`, goes to the source of the request and carries `data`.
pub proof fn lemma_ipv6_reply_is_well_formed(
    request: Seq<u8>,
    source: u128,
    data: Seq<u8>,
    hop_limit: Option<u8>,
)
    requires
        ipv6_reply(request, source, data, hop_limit) is Some,
    ensures
        ({
            let reply = ipv6_reply(request, source, data, hop_limit)->0;
            &&& is_ipv6_datagram(reply)
            &&& reply.subrange(0, 4) == seq![0x60u8, 0x00u8, 0x00u8, 0x00u8]
            &&& reply.len() == 40 + data.len()
            &&& ipv6_payload_length(reply) == data.len()
            &&& ipv6_next_header(reply) == NEXT_HEADER_ICMPV6
            &&& Some(ipv6_hop_limit(reply)) == ipv6_reply_hop_limit(request, hop_limit)
            &&& ipv6_source(reply) == source
            &&& ipv6_destination(reply) == ipv6_source(request)
            &&& ipv6_payload(reply) == data
        }),
{
    let hops = ipv6_reply_hop_limit(request, hop_limit)->0;
    let header = ipv6_header(data.len() as u16, hops, source, ipv6_source(request));
    let reply = ipv6_reply(request, source, data, hop_limit)->0;
    assert(reply == header + data);
    lemma_ipv6_header_fields(data.len() as u16, hops, source, ipv6_source(request));
    assert(reply.subrange(0, 4) =~= header.subrange(0, 4));
    assert(reply.subrange(4, 6) =~= header.subrange(4, 6));
    assert(reply.subrange(8, 24) =~= header.subrange(8, 24));
    assert(reply.subrange(24, 40) =~= header.subrange(24, 40));
    assert(reply.skip(40) =~= data);
}

/// Every reply to an IPv6 datagram is a whole IPv6 datagram that goes to the
/// source of the request and carries an ICMPv6 message whose checksum holds
/// under the pseudo-header of the reply's own addresses. A request in transit
/// is answered from the address that stands for its hop limit, which lies in
/// the subnet of its destination, with a fresh hop limit, by a *time
/// exceeded* message that quotes it whole. A request that has arrived is
/// answered from its destination with its hop limit less one: an echo request
/// by an echo reply that returns its payload byte for byte, UDP and TCP by
/// a *port unreachable* message that quotes the request whole.
pub proof fn lemma_ipv6_response_is_well_formed(n_hosts: usize, request: Seq<u8>)
    requires
        ipv6_response(n_hosts, request) is Some,
    ensures
        ({
            let reply = ipv6_response(n_hosts, request)->0;
            let message = ipv6_payload(reply);
            &&& is_ipv6_datagram(reply)
            &&& ipv6_payload_length(reply) == message.len()
            &&& ipv6_next_header(reply) == NEXT_HEADER_ICMPV6
            &&& ipv6_destination(reply) == ipv6_source(request)
            &&& message_holds6(message, ipv6_source(reply), ipv6_destination(reply))
            &&& ipv6_in_transit(n_hosts, request) ==> {
                &&& ipv6_source(reply) == ipv6_candidate(n_hosts, request)
                &&& in_subnet6(
                    ipv6_source(reply),
                    netmask_size6(n_hosts) as usize,
                    ipv6_destination(request),
                )
                &&& ipv6_hop_limit(reply) == FRESH_HOP_LIMIT
                &&& message[0] == TIME_EXCEEDED_V6
                &&& message[1] == 0
                &&& message.subrange(4, 8) == seq![0u8, 0u8, 0u8, 0u8]
                &&& message.skip(8) == request
            }
            &&& !ipv6_in_transit(n_hosts, request) ==> {
                &&& ipv6_source(reply) == ipv6_destination(request)
                &&& ipv6_hop_limit(reply) == ipv6_hop_limit(request) - 1
                &&& ipv6_next_header(request) == NEXT_HEADER_ICMPV6 ==> {
                    &&& ipv6_payload(request)[0] == ECHO_REQUEST_V6
                    &&& message[0] == ECHO_REPLY_V6
                    &&& message[1] == 0
                    &&& message.skip(4) == ipv6_payload(request).skip(4)
                }
                &&& ipv6_next_header(request) != NEXT_HEADER_ICMPV6 ==> {
                    &&& message[0] == DESTINATION_UNREACHABLE_V6
                    &&& message[1] == PORT_UNREACHABLE_V6
                    &&& message.subrange(4, 8) == seq![0u8, 0u8, 0u8, 0u8]
                    &&& message.skip(8) == request
                }
            }
        }),
{
    let source = ipv6_source(request);
    let destination = ipv6_destination(request);
    if ipv6_in_transit(n_hosts, request) {
        let candidate = ipv6_candidate(n_hosts, request);
        lemma_ipv6_reply_is_well_formed(
            request,
            candidate,
            time_exceeded_message6(request, candidate, source),
            Some(FRESH_HOP_LIMIT),
        );
        lemma_quoting_message6(TIME_EXCEEDED_V6, 0, request, candidate, source);
        lemma_nth_address6_in_subnet(
            ipv6_hop_limit(request) as u128,
            netmask_size6(n_hosts) as usize,
            destination,
        );
    } else if ipv6_next_header(request) == NEXT_HEADER_ICMPV6 {
        let message = echo_response6(ipv6_payload(request), destination, source)->0;
        lemma_ipv6_reply_is_well_formed(request, destination, message, None);
        lemma_echo_round_trip6(ipv6_payload(request), destination, source);
    } else {
        lemma_ipv6_reply_is_well_formed(
            request,
            destination,
            destination_unreachable_message6(request, destination, source),
            None,
        );
        lemma_quoting_message6(
            DESTINATION_UNREACHABLE_V6,
            PORT_UNREACHABLE_V6,
            request,
            destination,
            source,
        );
    }
}

/// A datagram whose hop limit equals the host count has arrived, and so has
/// one whose hop limit stands for its own destination, however low it is.
pub proof fn lemma_ipv6_arrival(n_hosts: usize, request: Seq<u8>)
    ensures
        ipv6_hop_limit(request) >= n_hosts ==> !ipv6_in_transit(n_hosts, request),
        ipv6_candidate(n_hosts, request) == ipv6_destination(request) ==> !ipv6_in_transit(
            n_hosts,
            request,
        ),
{
}

/// Answering the same datagram under the same configuration twice, or
/// wrapping the same data for the same request twice, gives the same bytes.
pub proof fn lemma_ipv6_replies_are_deterministic(
    program_args: &Arguments,
    packet: &Ipv6Datagram,
    src_address: Ipv6Address,
    data: &[u8],
    hop_limit: Option<u8>,
    first: Option<Vec<u8>>,
    second: Option<Vec<u8>>,
)
    ensures
        call_ensures(handle_ipv6_packet, (program_args, packet), first) && call_ensures(
            handle_ipv6_packet,
            (program_args, packet),
            second,
        ) ==> reply_bytes(first) == reply_bytes(second),
        call_ensures(build_ipv6_response, (packet, src_address, data, hop_limit), first)
            && call_ensures(
            build_ipv6_response,
            (packet, src_address, data, hop_limit),
            second,
        ) ==> reply_bytes(first) == reply_bytes(second),
{
}

/// An IPv6 datagram that arrived whole.
pub struct Ipv6Datagram<'a> {
    bytes: &'a [u8],
}

impl<'a> View for Ipv6Datagram<'a> {
    type V = Seq<u8>;

    closed spec fn view(&self) -> Seq<u8> {
        self.bytes@
    }
}

impl<'a> Ipv6Datagram<'a> {
    #[verifier::type_invariant]
    closed spec fn well_formed(&self) -> bool {
        is_ipv6_datagram(self.bytes@)
    }

    /// Takes `bytes` as a datagram if they are one.
    pub fn new(bytes: &'a [u8]) -> (datagram: Option<Ipv6Datagram<'a>>)
        ensures
            datagram is Some <==> is_ipv6_datagram(bytes@),
            datagram is Some ==> datagram->0@ == bytes@,
    {
        if bytes.len() < IPV6_HEADER_LENGTH {
            return None;
        }
        let version: u8 = bytes[0] / 16;
        let payload_length: usize = read_be_u16(bytes, 4) as usize;
        if version == 6 && payload_length == bytes.len() - IPV6_HEADER_LENGTH {
            Some(Ipv6Datagram { bytes })
        } else {
            None
        }
    }

    /// The whole datagram.
    pub fn packet(&self) -> (bytes: &'a [u8])
        ensures
            bytes@ == self@,
            is_ipv6_datagram(self@),
            40 <= self@.len() <= 40 + 0xffff,
    {
        proof {
            use_type_invariant(self);
            lemma_be_value_bound(self.bytes@.subrange(4, 6));
            lemma_byte_capacity_values();
        }
        self.bytes
    }

    /// The next-header value.
    pub fn get_next_header(&self) -> (next_header: u8)
        ensures
            next_header == ipv6_next_header(self@),
    {
        proof {
            use_type_invariant(self);
        }
        self.bytes[6]
    }

    /// The hop limit.
    pub fn get_hop_limit(&self) -> (hop_limit: u8)
        ensures
            hop_limit == ipv6_hop_limit(self@),
    {
        proof {
            use_type_invariant(self);
        }
        self.bytes[7]
    }

    /// The source address.
    pub fn get_source(&self) -> (address: Ipv6Address)
        ensures
            address.bits == ipv6_source(self@),
    {
        proof {
            use_type_invariant(self);
            lemma_byte_capacity_values();
        }
        Ipv6Address { bits: read_be(self.bytes, 8, 16) }
    }

    /// The destination address.
    pub fn get_destination(&self) -> (address: Ipv6Address)
        ensures
            address.bits == ipv6_destination(self@),
    {
        proof {
            use_type_invariant(self);
            lemma_byte_capacity_values();
        }
        Ipv6Address { bits: read_be(self.bytes, 24, 16) }
    }

    /// What the datagram carries behind its header.
    pub fn payload(&self) -> (payload: &'a [u8])
        ensures
            payload@ == ipv6_payload(self@),
            payload@.len() <= 0xffff,
    {
        proof {
            use_type_invariant(self);
            lemma_be_value_bound(self.bytes@.subrange(4, 6));
            lemma_byte_capacity_values();
        }
        slice_subrange(self.bytes, IPV6_HEADER_LENGTH, self.bytes.len())
    }
}

/// Handle incoming IPv6 packet and optionally return a response IPv6 packet.
pub fn handle_ipv6_packet(
    program_args: &Arguments,
    packet: &Ipv6Datagram,
) -> (response: Option<Vec<u8>>)
    ensures
        reply_bytes(response) == ipv6_response(program_args.n_hosts, packet@),
{
    // The nth address in the virtual network if the request's hop limit is used as n
    let nth_address_from_ttl: Ipv6Address = get_nth_address_in_network6(
        usize::from(packet.get_hop_limit()),
        calc_netmask_size_with_n_hosts6(program_args.n_hosts),
        &packet.get_destination(),
    );
    if usize::from(packet.get_hop_limit()) < program_args.n_hosts && nth_address_from_ttl
        != packet.get_destination() {
        // the packet has not yet reached its goal: terminate it early
        let message: Vec<u8> = build_icmp6_time_exceeded_response(
            packet,
            &nth_address_from_ttl,
            &packet.get_source(),
        );
        build_ipv6_response(
            packet,
            nth_address_from_ttl,
            message.as_slice(),
            Some(FRESH_HOP_LIMIT),
        )
    } else if packet.get_next_header() == NEXT_HEADER_ICMPV6 {
        match Icmpv6Message::new(packet.payload()) {
            None => None,
            Some(icmp_packet) => match handle_icmp6_packet(
                &icmp_packet,
                &packet.get_destination(),
                &packet.get_source(),
            ) {
                None => None,
                Some(icmp_response) => build_ipv6_response(
                    packet,
                    packet.get_destination(),
                    icmp_response.as_slice(),
                    None,
                ),
            },
        }
    } else if packet.get_next_header() == NEXT_HEADER_UDP || packet.get_next_header()
        == NEXT_HEADER_TCP {
        // a UDP or TCP packet is told that the port is closed
        let message: Vec<u8> = build_icmp6_destination_unreachable_response(
            packet,
            &packet.get_destination(),
            &packet.get_source(),
        );
        build_ipv6_response(packet, packet.get_destination(), message.as_slice(), None)
    } else {
        // all other upper layer protocols are not answered at all
        None
    }
}

/// Build an IPv6 packet in response to the provided one.
///
/// The reply goes to the source of `request` and comes from `src_address`;
/// it has `data` as its payload and `hop_limit` as its hop limit, or without
/// one the hop limit of the request less one. There is no reply where the
/// request has no hop to give, or where `data` is too long for one datagram.
pub fn build_ipv6_response(
    request: &Ipv6Datagram,
    src_address: Ipv6Address,
    data: &[u8],
    hop_limit: Option<u8>,
) -> (response: Option<Vec<u8>>)
    ensures
        reply_bytes(response) == ipv6_reply(request@, src_address.bits, data@, hop_limit),
{
    let hops: u8 = match hop_limit {
        Some(fresh) => fresh,
        None => {
            let left: u8 = request.get_hop_limit();
            if left < 1 {
                return None;
            }
            left - 1
        },
    };
    if data.len() > 0xffff {
        return None;
    }
    let destination: Ipv6Address = request.get_source();
    let mut response: Vec<u8> = Vec::with_capacity(IPV6_HEADER_LENGTH + data.len());
    response.push(0x60);
    response.push(0x00);
    response.push(0x00);
    response.push(0x00);
    push_be(&mut response, data.len() as u128, 2);
    response.push(NEXT_HEADER_ICMPV6);
    response.push(hops);
    push_be(&mut response, src_address.bits, 16);
    push_be(&mut response, destination.bits, 16);
    proof {
        lemma_be_bytes_len(data@.len(), 2);
        lemma_be_bytes_len(src_address.bits as nat, 16);
        lemma_be_bytes_len(destination.bits as nat, 16);
        assert(response@ =~= ipv6_header(
            data@.len() as u16,
            hops,
            src_address.bits,
            destination.bits,
        ));
    }
    push_bytes(&mut response, data);
    Some(response)
}

} // verus!

//! IPv4 datagrams: the ones that arrive and the replies that leave.

use super::icmp::{
    build_icmp_time_exceeded_response, echo_response, handle_icmp_packet, is_control_message,
    lemma_echo_round_trip, lemma_quoting_message, message_holds, time_exceeded_message,
    IcmpMessage, ECHO_REPLY, ECHO_REQUEST, TIME_EXCEEDED,
};
use crate::argparse::Arguments;
use crate::checksum::{
    checksum_holds, checksum_of, checksum_skipping, lemma_checksum_holds,
    lemma_checksummed_data_holds, lemma_word_sum_nonnegative, set_word, word_count, word_sum,
    word_sum_skipping,
};
use crate::ip_addrs::{
    calc_netmask_size_with_n_hosts4, get_nth_address_in_network4, in_subnet4,
    lemma_nth_address4_in_subnet, n_hosts_fit_ipv4, netmask_size4, nth_address4, Ipv4Address,
};
use crate::wire::{
    be_bytes, be_value, lemma_be_bytes_len, lemma_be_value_bound, lemma_be_value_of_be_bytes,
    lemma_byte_capacity_values, patch_be_u16, push_be, push_bytes, read_be_u16, read_be_u32,
    reply_bytes,
};
use vstd::prelude::*;
use vstd::slice::slice_subrange;

verus! {

/// The protocol number of ICMP in the IPv4 header.
pub const PROTOCOL_ICMP: u8 = 1;

/// The identification that every reply carries; replies are never fragmented.
pub const REPLY_IDENTIFICATION: u16 = 42;

/// The flags and the fragment offset of every reply: *don't fragment*, and
/// no offset.
pub const DONT_FRAGMENT: u16 = 0x4000;

/// The place of the checksum in the header, counted in 16-bit words.
pub const HEADER_CHECKSUM_WORD: usize = 5;

/// The length in bytes of an IPv4 header without options.
pub const IPV4_HEADER_LENGTH: usize = 20;

/// The header length that a datagram declares, in bytes.
pub open spec fn ipv4_header_length(bytes: Seq<u8>) -> int {
    (bytes[0] % 16) * 4
}

/// The total length that a datagram declares.
pub open spec fn ipv4_total_length(bytes: Seq<u8>) -> nat {
    be_value(bytes.subrange(2, 4))
}

/// The time to live of a datagram.
pub open spec fn ipv4_ttl(bytes: Seq<u8>) -> u8 {
    bytes[8]
}

/// The protocol number of what a datagram carries.
pub open spec fn ipv4_protocol(bytes: Seq<u8>) -> u8 {
    bytes[9]
}

/// The source address of a datagram.
pub open spec fn ipv4_source(bytes: Seq<u8>) -> u32 {
    be_value(bytes.subrange(12, 16)) as u32
}

/// The destination address of a datagram.
pub open spec fn ipv4_destination(bytes: Seq<u8>) -> u32 {
    be_value(bytes.subrange(16, 20)) as u32
}

/// What a datagram carries behind its header.
pub open spec fn ipv4_payload(bytes: Seq<u8>) -> Seq<u8> {
    bytes.skip(ipv4_header_length(bytes))
}

/// Whether `bytes` are one whole IPv4 datagram: version 4, a header of at
/// least five words that lies within the datagram, and a total length that is
/// the number of bytes at hand.
pub open spec fn is_ipv4_datagram(bytes: Seq<u8>) -> bool {
    &&& bytes.len() >= 20
    &&& bytes[0] / 16 == 4
    &&& ipv4_header_length(bytes) >= 20
    &&& ipv4_header_length(bytes) <= ipv4_total_length(bytes)
    &&& ipv4_total_length(bytes) == bytes.len()
}

/// Whether the header checksum of `datagram` holds: the receiver's sum over
/// all words of the header folds to all ones.
pub open spec fn ipv4_header_holds(datagram: Seq<u8>) -> bool {
    checksum_holds(word_sum(datagram.subrange(0, ipv4_header_length(datagram))))
}

/// The header of a reply, with `checksum` in its checksum field: version 4,
/// five words, no service bits, the fixed identification, *don't fragment*,
/// offset zero, protocol ICMP.
pub open spec fn ipv4_header(
    total_length: u16,
    ttl: u8,
    checksum: u16,
    source: u32,
    destination: u32,
) -> Seq<u8> {
    seq![0x45u8, 0x00u8] + be_bytes(total_length as nat, 2) + be_bytes(
        REPLY_IDENTIFICATION as nat,
        2,
    ) + be_bytes(DONT_FRAGMENT as nat, 2) + seq![ttl, PROTOCOL_ICMP] + be_bytes(checksum as nat, 2)
        + be_bytes(source as nat, 4) + be_bytes(destination as nat, 4)
}

/// The header of a reply with the checksum of its own bytes.
pub open spec fn ipv4_reply_header(
    total_length: u16,
    ttl: u8,
    source: u32,
    destination: u32,
) -> Seq<u8> {
    ipv4_header(
        total_length,
        ttl,
        checksum_of(word_sum_skipping(ipv4_header(total_length, ttl, 0, source, destination), 5)),
        source,
        destination,
    )
}

/// The reply to `request` that carries `data` from the address `source`, if
/// one can be sent: the time to live of the request less one, which must
/// leave at least one, and a total length that fits its field.
pub open spec fn ipv4_reply(request: Seq<u8>, source: u32, data: Seq<u8>) -> Option<Seq<u8>> {
    if ipv4_ttl(request) >= 2 && 20 + data.len() <= 0xffff {
        Some(
            ipv4_reply_header(
                (20 + data.len()) as u16,
                (ipv4_ttl(request) - 1) as u8,
                source,
                ipv4_source(request),
            ) + data,
        )
    } else {
        None
    }
}

/// The address that stands for the time to live of `request` in the virtual
/// subnet of its destination.
pub open spec fn ipv4_candidate(n_hosts: usize, request: Seq<u8>) -> u32 {
    nth_address4(
        ipv4_ttl(request) as u32,
        netmask_size4(n_hosts) as u32,
        ipv4_destination(request),
    )
}

/// Whether `request` is still on its way through the virtual hosts: its time
/// to live is below the number of hosts and stands for another address than
/// its destination.
pub open spec fn ipv4_in_transit(n_hosts: usize, request: Seq<u8>) -> bool {
    ipv4_ttl(request) < n_hosts && ipv4_candidate(n_hosts, request) != ipv4_destination(request)
}

/// The reply to the datagram `request`, if there is one.
///
/// A datagram in transit is answered by *time exceeded* from the address that
/// stands for its time to live. One that has arrived is answered as its
/// destination if it carries an echo request, and not at all otherwise. No
/// datagram is answered where the host count leaves no IPv4 prefix.
pub open spec fn ipv4_response(n_hosts: usize, request: Seq<u8>) -> Option<Seq<u8>> {
    if netmask_size4(n_hosts) < 1 {
        None
    } else if ipv4_in_transit(n_hosts, request) {
        ipv4_reply(request, ipv4_candidate(n_hosts, request), time_exceeded_message(request))
    } else if ipv4_protocol(request) == PROTOCOL_ICMP && is_control_message(ipv4_payload(request)) {
        match echo_response(ipv4_payload(request)) {
            Some(message) => ipv4_reply(request, ipv4_destination(request), message),
            None => None,
        }
    } else {
        None
    }
}

/// Where the fields of a reply header stand in it.
pub proof fn lemma_ipv4_header_fields(
    total_length: u16,
    ttl: u8,
    checksum: u16,
    source: u32,
    destination: u32,
)
    ensures
        ({
            let header = ipv4_header(total_length, ttl, checksum, source, destination);
            &&& header.len() == 20
            &&& header[0] == 0x45
            &&& ipv4_header_length(header) == 20
            &&& ipv4_total_length(header) == total_length
            &&& ipv4_ttl(header) == ttl
            &&& ipv4_protocol(header) == PROTOCOL_ICMP
            &&& be_value(header.subrange(4, 6)) == REPLY_IDENTIFICATION
            &&& be_value(header.subrange(6, 8)) == DONT_FRAGMENT
            &&& be_value(header.subrange(10, 12)) == checksum
            &&& ipv4_source(header) == source
            &&& ipv4_destination(header) == destination
            &&& header == set_word(
                ipv4_header(total_length, ttl, 0, source, destination),
                5,
                checksum,
            )
        }),
{
    let header = ipv4_header(total_length, ttl, checksum, source, destination);
    let blank = ipv4_header(total_length, ttl, 0, source, destination);
    lemma_byte_capacity_values();
    lemma_be_bytes_len(total_length as nat, 2);
    lemma_be_bytes_len(REPLY_IDENTIFICATION as nat, 2);
    lemma_be_bytes_len(DONT_FRAGMENT as nat, 2);
    lemma_be_bytes_len(checksum as nat, 2);
    lemma_be_bytes_len(0, 2);
    lemma_be_bytes_len(source as nat, 4);
    lemma_be_bytes_len(destination as nat, 4);
    lemma_be_value_of_be_bytes(total_length as nat, 2);
    lemma_be_value_of_be_bytes(REPLY_IDENTIFICATION as nat, 2);
    lemma_be_value_of_be_bytes(DONT_FRAGMENT as nat, 2);
    lemma_be_value_of_be_bytes(checksum as nat, 2);
    lemma_be_value_of_be_bytes(source as nat, 4);
    lemma_be_value_of_be_bytes(destination as nat, 4);
    assert(header.subrange(2, 4) =~= be_bytes(total_length as nat, 2));
    assert(header.subrange(4, 6) =~= be_bytes(REPLY_IDENTIFICATION as nat, 2));
    assert(header.subrange(6, 8) =~= be_bytes(DONT_FRAGMENT as nat, 2));
    assert(header.subrange(10, 12) =~= be_bytes(checksum as nat, 2));
    assert(header.subrange(12, 16) =~= be_bytes(source as nat, 4));
    assert(header.subrange(16, 20) =~= be_bytes(destination as nat, 4));
    assert(header =~= set_word(blank, 5, checksum)) by {
        reveal_with_fuel(be_bytes, 3);
    }
}

/// A reply is a whole IPv4 datagram of its own: its header checksum holds,
/// its total length is its length on the wire, its time to live is at least
/// one, it comes from `source`, goes to the source of the request and carries
/// `data`.
pub proof fn lemma_ipv4_reply_is_well_formed(request: Seq<u8>, source: u32, data: Seq<u8>)
    requires
        ipv4_reply(request, source, data) is Some,
    ensures
        ({
            let reply = ipv4_reply(request, source, data)->0;
            &&& is_ipv4_datagram(reply)
            &&& ipv4_header_holds(reply)
            &&& ipv4_total_length(reply) == reply.len() == 20 + data.len()
            &&& ipv4_header_length(reply) == 20
            &&& ipv4_ttl(reply) == ipv4_ttl(request) - 1
            &&& ipv4_ttl(reply) >= 1
            &&& ipv4_protocol(reply) == PROTOCOL_ICMP
            &&& ipv4_source(reply) == source
            &&& ipv4_destination(reply) == ipv4_source(request)
            &&& ipv4_payload(reply) == data
        }),
{
    let total_length = (20 + data.len()) as u16;
    let ttl = (ipv4_ttl(request) - 1) as u8;
    let destination = ipv4_source(request);
    let blank = ipv4_header(total_length, ttl, 0, source, destination);
    let checksum = checksum_of(word_sum_skipping(blank, 5));
    let header = ipv4_header(total_length, ttl, checksum, source, destination);
    let reply = ipv4_reply(request, source, data)->0;
    assert(reply == header + data);
    lemma_ipv4_header_fields(total_length, ttl, checksum, source, destination);
    lemma_ipv4_header_fields(total_length, ttl, 0, source, destination);
    lemma_word_sum_nonnegative(blank, 5, word_count(blank));
    lemma_checksum_holds(word_sum_skipping(blank, 5));
    lemma_checksummed_data_holds(blank, 5, 0, checksum);
    assert(reply.subrange(0, 20) =~= header);
    assert(reply.subrange(2, 4) =~= header.subrange(2, 4));
    assert(reply.subrange(12, 16) =~= header.subrange(12, 16));
    assert(reply.subrange(16, 20) =~= header.subrange(16, 20));
    assert(reply.skip(20) =~= data);
}

/// Every reply to an IPv4 datagram is a whole IPv4 datagram whose header
/// checksum holds, whose total length is its length on the wire and whose
/// time to live is at least one. It goes to the source of the request. A
/// request in transit is answered from the address that stands for its time
/// to live, which lies in the subnet of its destination, by a *time exceeded*
/// message that quotes it whole. A request that has arrived is answered from
/// its destination by an echo reply that returns its payload byte for byte.
/// Either message has a checksum that holds.
pub proof fn lemma_ipv4_response_is_well_formed(n_hosts: usize, request: Seq<u8>)
    requires
        ipv4_response(n_hosts, request) is Some,
    ensures
        ({
            let reply = ipv4_response(n_hosts, request)->0;
            let message = ipv4_payload(reply);
            &&& is_ipv4_datagram(reply)
            &&& ipv4_header_holds(reply)
            &&& ipv4_total_length(reply) == reply.len()
            &&& ipv4_ttl(reply) == ipv4_ttl(request) - 1
            &&& ipv4_ttl(reply) >= 1
            &&& ipv4_protocol(reply) == PROTOCOL_ICMP
            &&& ipv4_destination(reply) == ipv4_source(request)
            &&& message_holds(message)
            &&& ipv4_in_transit(n_hosts, request) ==> {
                &&& ipv4_source(reply) == ipv4_candidate(n_hosts, request)
                &&& in_subnet4(
                    ipv4_source(reply),
                    netmask_size4(n_hosts) as u32,
                    ipv4_destination(request),
                )
                &&& message[0] == TIME_EXCEEDED
                &&& message[1] == 0
                &&& message.subrange(4, 8) == seq![0u8, 0u8, 0u8, 0u8]
                &&& message.skip(8) == request
            }
            &&& !ipv4_in_transit(n_hosts, request) ==> {
                &&& ipv4_source(reply) == ipv4_destination(request)
                &&& ipv4_payload(request)[0] == ECHO_REQUEST
                &&& message[0] == ECHO_REPLY
                &&& message[1] == 0
                &&& message.skip(4) == ipv4_payload(request).skip(4)
            }
        }),
{
    if ipv4_in_transit(n_hosts, request) {
        let candidate = ipv4_candidate(n_hosts, request);
        lemma_ipv4_reply_is_well_formed(request, candidate, time_exceeded_message(request));
        lemma_quoting_message(TIME_EXCEEDED, 0, request);
        lemma_nth_address4_in_subnet(
            ipv4_ttl(request) as u32,
            netmask_size4(n_hosts) as u32,
            ipv4_destination(request),
        );
    } else {
        let message = echo_response(ipv4_payload(request))->0;
        lemma_ipv4_reply_is_well_formed(request, ipv4_destination(request), message);
        lemma_echo_round_trip(ipv4_payload(request));
    }
}

/// A datagram whose time to live equals the host count has arrived, and so
/// has one whose time to live stands for its own destination, however low it
/// is.
pub proof fn lemma_ipv4_arrival(n_hosts: usize, request: Seq<u8>)
    ensures
        ipv4_ttl(request) >= n_hosts ==> !ipv4_in_transit(n_hosts, request),
        ipv4_candidate(n_hosts, request) == ipv4_destination(request) ==> !ipv4_in_transit(
            n_hosts,
            request,
        ),
{
}

/// A datagram whose time to live leaves none for a reply is not answered.
pub proof fn lemma_ipv4_no_reply_without_ttl(n_hosts: usize, request: Seq<u8>)
    requires
        ipv4_ttl(request) <= 1,
    ensures
        ipv4_response(n_hosts, request) is None,
{
}

/// Answering the same datagram under the same configuration twice, or
/// wrapping the same data for the same request twice, gives the same bytes.
pub proof fn lemma_ipv4_replies_are_deterministic(
    program_args: &Arguments,
    packet: &Ipv4Datagram,
    src_address: Ipv4Address,
    data: &[u8],
    first: Option<Vec<u8>>,
    second: Option<Vec<u8>>,
)
    ensures
        call_ensures(handle_ipv4_packet, (program_args, packet), first) && call_ensures(
            handle_ipv4_packet,
            (program_args, packet),
            second,
        ) ==> reply_bytes(first) == reply_bytes(second),
        call_ensures(build_ipv4_response, (packet, src_address, data), first) && call_ensures(
            build_ipv4_response,
            (packet, src_address, data),
            second,
        ) ==> reply_bytes(first) == reply_bytes(second),
{
}

/// An IPv4 datagram that arrived whole.
pub struct Ipv4Datagram<'a> {
    bytes: &'a [u8],
}

impl<'a> View for Ipv4Datagram<'a> {
    type V = Seq<u8>;

    closed spec fn view(&self) -> Seq<u8> {
        self.bytes@
    }
}

impl<'a> Ipv4Datagram<'a> {
    #[verifier::type_invariant]
    closed spec fn well_formed(&self) -> bool {
        is_ipv4_datagram(self.bytes@)
    }

    /// Takes `bytes` as a datagram if they are one.
    pub fn new(bytes: &'a [u8]) -> (datagram: Option<Ipv4Datagram<'a>>)
        ensures
            datagram is Some <==> is_ipv4_datagram(bytes@),
            datagram is Some ==> datagram->0@ == bytes@,
    {
        if bytes.len() < 20 {
            return None;
        }
        let version: u8 = bytes[0] / 16;
        let header_length: usize = (bytes[0] % 16) as usize * 4;
        let total_length: usize = read_be_u16(bytes, 2) as usize;
        if version == 4 && header_length >= 20 && header_length <= total_length && total_length
            == bytes.len() {
            Some(Ipv4Datagram { bytes })
        } else {
            None
        }
    }

    /// The whole datagram.
    pub fn packet(&self) -> (bytes: &'a [u8])
        ensures
            bytes@ == self@,
            is_ipv4_datagram(self@),
            20 <= self@.len() <= 0xffff,
    {
        proof {
            use_type_invariant(self);
            lemma_be_value_bound(self.bytes@.subrange(2, 4));
            lemma_byte_capacity_values();
        }
        self.bytes
    }

    /// The time to live.
    pub fn get_ttl(&self) -> (ttl: u8)
        ensures
            ttl == ipv4_ttl(self@),
    {
        proof {
            use_type_invariant(self);
        }
        self.bytes[8]
    }

    /// The protocol number of the payload.
    pub fn get_next_level_protocol(&self) -> (protocol: u8)
        ensures
            protocol == ipv4_protocol(self@),
    {
        proof {
            use_type_invariant(self);
        }
        self.bytes[9]
    }

    /// The source address.
    pub fn get_source(&self) -> (address: Ipv4Address)
        ensures
            address.bits == ipv4_source(self@),
    {
        proof {
            use_type_invariant(self);
        }
        Ipv4Address { bits: read_be_u32(self.bytes, 12) }
    }

    /// The destination address.
    pub fn get_destination(&self) -> (address: Ipv4Address)
        ensures
            address.bits == ipv4_destination(self@),
    {
        proof {
            use_type_invariant(self);
        }
        Ipv4Address { bits: read_be_u32(self.bytes, 16) }
    }

    /// What the datagram carries behind its header.
    pub fn payload(&self) -> (payload: &'a [u8])
        ensures
            payload@ == ipv4_payload(self@),
    {
        proof {
            use_type_invariant(self);
        }
        let header_length: usize = (self.bytes[0] % 16) as usize * 4;
        slice_subrange(self.bytes, header_length, self.bytes.len())
    }
}

/// Handle incoming IPv4 packet and optionally return a response IPv4 packet.
pub fn handle_ipv4_packet(
    program_args: &Arguments,
    packet: &Ipv4Datagram,
) -> (response: Option<Vec<u8>>)
    ensures
        reply_bytes(response) == ipv4_response(program_args.n_hosts, packet@),
{
    if !n_hosts_fit_ipv4(program_args.n_hosts) {
        return None;
    }
    // The nth address in the virtual network if the request's TTL is used as n
    let nth_address_from_ttl: Ipv4Address = get_nth_address_in_network4(
        u32::from(packet.get_ttl()),
        calc_netmask_size_with_n_hosts4(program_args.n_hosts),
        &packet.get_destination(),
    );
    if usize::from(packet.get_ttl()) < program_args.n_hosts && nth_address_from_ttl
        != packet.get_destination() {
        // the packet has not yet reached its goal: terminate it early
        let message: Vec<u8> = build_icmp_time_exceeded_response(packet);
        build_ipv4_response(packet, nth_address_from_ttl, message.as_slice())
    } else if packet.get_next_level_protocol() == PROTOCOL_ICMP {
        match IcmpMessage::new(packet.payload()) {
            None => None,
            Some(icmp_packet) => match handle_icmp_packet(packet, &icmp_packet) {
                None => None,
                Some(icmp_response) => build_ipv4_response(
                    packet,
                    packet.get_destination(),
                    icmp_response.as_slice(),
                ),
            },
        }
    } else {
        // all other upper layer protocols are not answered at all
        None
    }
}

/// Build an IPv4 packet in response to the provided one.
///
/// The reply goes to the source of `request` and comes from `src_address`;
/// it has `data` as its payload. There is no reply where the time to live of
/// the request leaves none for the reply, or where `data` is too long for
/// one datagram.
pub fn build_ipv4_response(
    request: &Ipv4Datagram,
    src_address: Ipv4Address,
    data: &[u8],
) -> (response: Option<Vec<u8>>)
    ensures
        reply_bytes(response) == ipv4_reply(request@, src_address.bits, data@),
{
    let ttl: u8 = request.get_ttl();
    if ttl < 2 || data.len() > 0xffff - IPV4_HEADER_LENGTH {
        return None;
    }
    let total_length: u16 = (IPV4_HEADER_LENGTH + data.len()) as u16;
    let destination: Ipv4Address = request.get_source();
    let mut response: Vec<u8> = Vec::with_capacity(IPV4_HEADER_LENGTH + data.len());
    response.push(0x45);
    response.push(0x00);
    push_be(&mut response, total_length as u128, 2);
    push_be(&mut response, REPLY_IDENTIFICATION as u128, 2);
    push_be(&mut response, DONT_FRAGMENT as u128, 2);
    response.push(ttl - 1);
    response.push(PROTOCOL_ICMP);
    push_be(&mut response, 0, 2);
    push_be(&mut response, src_address.bits as u128, 4);
    push_be(&mut response, destination.bits as u128, 4);
    let ghost blank = ipv4_header(
        total_length,
        (ttl - 1) as u8,
        0,
        src_address.bits,
        destination.bits,
    );
    proof {
        lemma_ipv4_header_fields(
            total_length,
            (ttl - 1) as u8,
            0,
            src_address.bits,
            destination.bits,
        );
        assert(response@ =~= blank);
    }
    let checksum: u16 = checksum_skipping(response.as_slice(), HEADER_CHECKSUM_WORD);
    patch_be_u16(&mut response, 10, checksum);
    proof {
        lemma_ipv4_header_fields(
            total_length,
            (ttl - 1) as u8,
            checksum,
            src_address.bits,
            destination.bits,
        );
    }
    push_bytes(&mut response, data);
    Some(response)
}

} // verus!

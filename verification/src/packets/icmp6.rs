//! ICMPv6 messages: the echo reply and the two messages that quote a
//! datagram. Their checksum covers the pseudo-header of the IPv6 datagram
//! that carries them.

use super::icmp::{
    blank_message, control_message, is_control_message, lemma_control_message_is_set_word,
    lemma_control_message_parts, quotation, CHECKSUM_WORD, MAX_MESSAGE_LENGTH,
    MESSAGE_HEADER_LENGTH,
};
use super::ipv6::Ipv6Datagram;
use crate::checksum::{
    checksum_holds, checksum_of, ipv6_checksum_skipping, lemma_checksum_holds,
    lemma_checksummed_data_holds, lemma_pseudo_header_sum_nonnegative,
    lemma_word_sum_nonnegative, never_zero, never_zero_checksum, pseudo_header_sum, word_count,
    word_sum, word_sum_skipping,
};
use crate::ip_addrs::Ipv6Address;
use crate::wire::{patch_be_u16, reply_bytes};
use vstd::prelude::*;
use vstd::slice::slice_subrange;

verus! {

/// The next-header value of ICMPv6.
pub const NEXT_HEADER_ICMPV6: u8 = 58;

/// The type of a *destination unreachable* message.
pub const DESTINATION_UNREACHABLE_V6: u8 = 1;

/// The code *port unreachable* of a *destination unreachable* message.
pub const PORT_UNREACHABLE_V6: u8 = 4;

/// The type of a *time exceeded* message.
pub const TIME_EXCEEDED_V6: u8 = 3;

/// The type of an echo request.
pub const ECHO_REQUEST_V6: u8 = 128;

/// The type of an echo reply.
pub const ECHO_REPLY_V6: u8 = 129;

/// The checksum of a control message that goes from `source` to
/// `destination`: that of its own bytes and of the pseudo-header, with all
/// ones in place of zero.
pub open spec fn message_checksum6(blank: Seq<u8>, source: u128, destination: u128) -> u16 {
    never_zero(
        checksum_of(pseudo_header_sum6(blank, source, destination) + word_sum_skipping(blank, 1)),
    )
}

/// The sum over the pseudo-header of a datagram that carries `message` from
/// `source` to `destination`.
pub open spec fn pseudo_header_sum6(message: Seq<u8>, source: u128, destination: u128) -> int {
    pseudo_header_sum(source, destination, message.len(), NEXT_HEADER_ICMPV6)
}

/// Whether the checksum of `message` holds in a datagram from `source` to
/// `destination`: the receiver's sum over the pseudo-header and all words of
/// the message folds to all ones.
pub open spec fn message_holds6(message: Seq<u8>, source: u128, destination: u128) -> bool {
    checksum_holds(pseudo_header_sum6(message, source, destination) + word_sum(message))
}

/// A control message with its checksum for a datagram from `source` to
/// `destination`.
pub open spec fn checksummed_message6(
    kind: u8,
    code: u8,
    rest: Seq<u8>,
    source: u128,
    destination: u128,
) -> Seq<u8> {
    control_message(
        kind,
        code,
        message_checksum6(control_message(kind, code, 0, rest), source, destination),
        rest,
    )
}

/// The echo reply that returns `payload`.
pub open spec fn echo_reply_message6(payload: Seq<u8>, source: u128, destination: u128) -> Seq<
    u8,
> {
    checksummed_message6(ECHO_REPLY_V6, 0, payload, source, destination)
}

/// The *hop limit exceeded in transit* message that quotes `datagram`.
pub open spec fn time_exceeded_message6(
    datagram: Seq<u8>,
    source: u128,
    destination: u128,
) -> Seq<u8> {
    checksummed_message6(TIME_EXCEEDED_V6, 0, quotation(datagram), source, destination)
}

/// The *port unreachable* message that quotes `datagram`.
pub open spec fn destination_unreachable_message6(
    datagram: Seq<u8>,
    source: u128,
    destination: u128,
) -> Seq<u8> {
    checksummed_message6(
        DESTINATION_UNREACHABLE_V6,
        PORT_UNREACHABLE_V6,
        quotation(datagram),
        source,
        destination,
    )
}

/// The answer to a message, sent from `source` to `destination`: an echo
/// request with code zero is answered by an echo reply with the same payload,
/// nothing else is answered.
pub open spec fn echo_response6(message: Seq<u8>, source: u128, destination: u128) -> Option<
    Seq<u8>,
> {
    if message[0] == ECHO_REQUEST_V6 && message[1] == 0 {
        Some(echo_reply_message6(message.skip(4), source, destination))
    } else {
        None
    }
}

/// A message built with its own checksum passes the receiver's test: the sum
/// over the pseudo-header and all words of the message folds to all ones.
pub proof fn lemma_checksummed_message6_holds(
    kind: u8,
    code: u8,
    rest: Seq<u8>,
    source: u128,
    destination: u128,
)
    ensures
        message_holds6(
            checksummed_message6(kind, code, rest, source, destination),
            source,
            destination,
        ),
{
    let blank = control_message(kind, code, 0, rest);
    let extra = pseudo_header_sum6(blank, source, destination);
    let checksum = message_checksum6(blank, source, destination);
    lemma_control_message_is_set_word(kind, code, 0, rest);
    lemma_control_message_is_set_word(kind, code, checksum, rest);
    lemma_pseudo_header_sum_nonnegative(source, destination, blank.len(), NEXT_HEADER_ICMPV6);
    lemma_word_sum_nonnegative(blank, 1, word_count(blank));
    lemma_checksum_holds(extra + word_sum_skipping(blank, 1));
    lemma_checksummed_data_holds(blank, 1, extra, checksum);
}

/// An echo request with any payload is answered by an echo reply with the
/// same payload, byte for byte, and with a checksum that holds under the
/// pseudo-header of the addresses it was built for.
pub proof fn lemma_echo_round_trip6(request: Seq<u8>, source: u128, destination: u128)
    requires
        request.len() >= 4,
        request[0] == ECHO_REQUEST_V6,
        request[1] == 0,
    ensures
        ({
            let answer = echo_response6(request, source, destination);
            &&& answer is Some
            &&& answer->0.len() == request.len()
            &&& answer->0[0] == ECHO_REPLY_V6
            &&& answer->0[1] == 0
            &&& answer->0.skip(4) == request.skip(4)
            &&& message_holds6(answer->0, source, destination)
        }),
{
    let payload = request.skip(4);
    let blank = control_message(ECHO_REPLY_V6, 0, 0, payload);
    let checksum = message_checksum6(blank, source, destination);
    lemma_control_message_parts(ECHO_REPLY_V6, 0, checksum, payload);
    lemma_checksummed_message6_holds(ECHO_REPLY_V6, 0, payload, source, destination);
}

/// A message that quotes a datagram holds its type and code, four bytes of
/// zero and then the datagram, whole and unchanged; its checksum holds under
/// the pseudo-header of the addresses it was built for.
pub proof fn lemma_quoting_message6(
    kind: u8,
    code: u8,
    datagram: Seq<u8>,
    source: u128,
    destination: u128,
)
    ensures
        ({
            let message = checksummed_message6(
                kind,
                code,
                quotation(datagram),
                source,
                destination,
            );
            &&& message.len() == 8 + datagram.len()
            &&& message[0] == kind
            &&& message[1] == code
            &&& message.subrange(4, 8) == seq![0u8, 0u8, 0u8, 0u8]
            &&& message.skip(8) == datagram
            &&& message_holds6(message, source, destination)
        }),
{
    let rest = quotation(datagram);
    let blank = control_message(kind, code, 0, rest);
    let checksum = message_checksum6(blank, source, destination);
    let message = checksummed_message6(kind, code, rest, source, destination);
    lemma_control_message_parts(kind, code, checksum, rest);
    lemma_checksummed_message6_holds(kind, code, rest, source, destination);
    assert(message.skip(4) == rest);
    assert(message.subrange(4, 8) =~= message.skip(4).subrange(0, 4));
    assert(message.skip(8) =~= message.skip(4).skip(4));
    assert(rest.skip(4) =~= datagram);
    assert(rest.subrange(0, 4) =~= seq![0u8, 0u8, 0u8, 0u8]);
}

/// Building a message for the same datagram and the same addresses twice, or
/// answering the same message twice, gives the same bytes.
pub proof fn lemma_messages6_are_deterministic(
    ip_packet: &Ipv6Datagram,
    icmp_packet: &Icmpv6Message,
    source: &Ipv6Address,
    destination: &Ipv6Address,
    first: Vec<u8>,
    second: Vec<u8>,
)
    ensures
        call_ensures(
            build_icmp6_time_exceeded_response,
            (ip_packet, source, destination),
            first,
        ) && call_ensures(
            build_icmp6_time_exceeded_response,
            (ip_packet, source, destination),
            second,
        ) ==> first@ == second@,
        call_ensures(
            build_icmp6_destination_unreachable_response,
            (ip_packet, source, destination),
            first,
        ) && call_ensures(
            build_icmp6_destination_unreachable_response,
            (ip_packet, source, destination),
            second,
        ) ==> first@ == second@,
        call_ensures(handle_icmp6_packet, (icmp_packet, source, destination), Some(first))
            && call_ensures(
            handle_icmp6_packet,
            (icmp_packet, source, destination),
            Some(second),
        ) ==> first@ == second@,
{
}

/// Builds a message of the given type and code with a valid checksum.
fn build_message6(
    kind: u8,
    code: u8,
    quoting: bool,
    body: &[u8],
    source: &Ipv6Address,
    destination: &Ipv6Address,
) -> (message: Vec<u8>)
    requires
        body@.len() + 8 <= 0x1_8000,
    ensures
        message@ == checksummed_message6(
            kind,
            code,
            if quoting {
                quotation(body@)
            } else {
                body@
            },
            source.bits,
            destination.bits,
        ),
{
    let mut message: Vec<u8> = blank_message(kind, code, quoting, body);
    let ghost rest = if quoting {
        quotation(body@)
    } else {
        body@
    };
    let checksum: u16 = never_zero_checksum(
        ipv6_checksum_skipping(
            message.as_slice(),
            CHECKSUM_WORD,
            source.bits,
            destination.bits,
            NEXT_HEADER_ICMPV6,
        ),
    );
    patch_be_u16(&mut message, 2, checksum);
    proof {
        lemma_control_message_is_set_word(kind, code, checksum, rest);
    }
    message
}

/// An ICMPv6 message that arrived in an IPv6 datagram.
pub struct Icmpv6Message<'a> {
    bytes: &'a [u8],
}

impl<'a> View for Icmpv6Message<'a> {
    type V = Seq<u8>;

    closed spec fn view(&self) -> Seq<u8> {
        self.bytes@
    }
}

impl<'a> Icmpv6Message<'a> {
    #[verifier::type_invariant]
    closed spec fn well_formed(&self) -> bool {
        is_control_message(self.bytes@)
    }

    /// Takes `bytes` as a message if they can be one.
    pub fn new(bytes: &'a [u8]) -> (message: Option<Icmpv6Message<'a>>)
        ensures
            message is Some <==> is_control_message(bytes@),
            message is Some ==> message->0@ == bytes@,
    {
        if bytes.len() >= MESSAGE_HEADER_LENGTH && bytes.len() <= MAX_MESSAGE_LENGTH {
            Some(Icmpv6Message { bytes })
        } else {
            None
        }
    }

    /// The type of the message.
    pub fn get_icmpv6_type(&self) -> (kind: u8)
        ensures
            kind == self@[0],
    {
        proof {
            use_type_invariant(self);
        }
        self.bytes[0]
    }

    /// The code of the message.
    pub fn get_icmpv6_code(&self) -> (code: u8)
        ensures
            code == self@[1],
    {
        proof {
            use_type_invariant(self);
        }
        self.bytes[1]
    }

    /// What stands behind the checksum.
    pub fn payload(&self) -> (payload: &'a [u8])
        ensures
            payload@ == self@.skip(4),
            is_control_message(self@),
    {
        proof {
            use_type_invariant(self);
        }
        slice_subrange(self.bytes, MESSAGE_HEADER_LENGTH, self.bytes.len())
    }
}

/// Handle an incoming ICMPv6 packet and optionally return a response ICMPv6
/// packet.
pub fn handle_icmp6_packet(
    packet: &Icmpv6Message,
    response_src_address: &Ipv6Address,
    response_dst_address: &Ipv6Address,
) -> (response: Option<Vec<u8>>)
    ensures
        reply_bytes(response) == echo_response6(
            packet@,
            response_src_address.bits,
            response_dst_address.bits,
        ),
{
    if packet.get_icmpv6_type() == ECHO_REQUEST_V6 && packet.get_icmpv6_code() == 0 {
        Some(
            build_icmp6_echo_response(
                packet.payload(),
                response_src_address,
                response_dst_address,
            ),
        )
    } else {
        None
    }
}

/// Build an ICMPv6 packet that is an echo response and has the provided
/// payload.
///
/// The addresses are those of the datagram that will carry the response;
/// the checksum depends on them.
fn build_icmp6_echo_response(
    icmp_payload: &[u8],
    my_src_address: &Ipv6Address,
    my_dst_address: &Ipv6Address,
) -> (response: Vec<u8>)
    requires
        icmp_payload@.len() + 8 <= 0x1_8000,
    ensures
        response@ == echo_reply_message6(icmp_payload@, my_src_address.bits, my_dst_address.bits),
{
    build_message6(ECHO_REPLY_V6, 0, false, icmp_payload, my_src_address, my_dst_address)
}

/// Build an *ICMPv6 time exceeded* packet that quotes the datagram whose hop
/// limit ran out.
///
/// The addresses are those of the datagram that will carry the response;
/// the checksum depends on them.
pub fn build_icmp6_time_exceeded_response(
    original_ip_packet: &Ipv6Datagram,
    my_src_address: &Ipv6Address,
    my_dst_address: &Ipv6Address,
) -> (response: Vec<u8>)
    ensures
        response@ == time_exceeded_message6(
            original_ip_packet@,
            my_src_address.bits,
            my_dst_address.bits,
        ),
{
    build_message6(
        TIME_EXCEEDED_V6,
        0,
        true,
        original_ip_packet.packet(),
        my_src_address,
        my_dst_address,
    )
}

/// Build an *ICMPv6 destination unreachable* packet that quotes the datagram
/// that could not be delivered.
///
/// The addresses are those of the datagram that will carry the response;
/// the checksum depends on them.
pub fn build_icmp6_destination_unreachable_response(
    original_ip_packet: &Ipv6Datagram,
    my_src_address: &Ipv6Address,
    my_dst_address: &Ipv6Address,
) -> (response: Vec<u8>)
    ensures
        response@ == destination_unreachable_message6(
            original_ip_packet@,
            my_src_address.bits,
            my_dst_address.bits,
        ),
{
    build_message6(
        DESTINATION_UNREACHABLE_V6,
        PORT_UNREACHABLE_V6,
        true,
        original_ip_packet.packet(),
        my_src_address,
        my_dst_address,
    )
}

} // verus!

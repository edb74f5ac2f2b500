//! ICMP messages: the echo reply and the two messages that quote a datagram.

use super::ipv4::Ipv4Datagram;
use crate::checksum::{
    checksum_holds, checksum_of, checksum_skipping, lemma_checksum_holds,
    lemma_checksummed_data_holds, lemma_word_sum_nonnegative, set_word, word_count, word_sum,
    word_sum_skipping,
};
use crate::wire::{be_bytes, lemma_be_bytes_len, patch_be_u16, push_bytes, reply_bytes};
use vstd::prelude::*;
use vstd::slice::slice_subrange;

verus! {

/// The type of an echo reply.
pub const ECHO_REPLY: u8 = 0;

/// The type of a *destination unreachable* message.
pub const DESTINATION_UNREACHABLE: u8 = 3;

/// The code *port unreachable* of a *destination unreachable* message.
pub const PORT_UNREACHABLE: u8 = 3;

/// The type of an echo request.
pub const ECHO_REQUEST: u8 = 8;

/// The type of a *time exceeded* message.
pub const TIME_EXCEEDED: u8 = 11;

/// The place of the checksum in a message, counted in 16-bit words.
pub const CHECKSUM_WORD: usize = 1;

/// The length of what stands before the payload: type, code and checksum.
pub const MESSAGE_HEADER_LENGTH: usize = 4;

/// The longest message that an IP datagram can carry.
pub const MAX_MESSAGE_LENGTH: usize = 0xffff;

/// A control message of the given type and code with `checksum` in its
/// checksum field and `rest` behind it.
pub open spec fn control_message(kind: u8, code: u8, checksum: u16, rest: Seq<u8>) -> Seq<u8> {
    seq![kind, code] + be_bytes(checksum as nat, 2) + rest
}

/// What stands behind the checksum of a message that quotes a datagram: four
/// unused bytes of zero, then the datagram.
pub open spec fn quotation(datagram: Seq<u8>) -> Seq<u8> {
    seq![0u8, 0u8, 0u8, 0u8] + datagram
}

/// Whether the checksum of `message` holds: the receiver's sum over all its
/// words folds to all ones.
pub open spec fn message_holds(message: Seq<u8>) -> bool {
    checksum_holds(word_sum(message))
}

/// A control message with the checksum of its own bytes.
pub open spec fn checksummed_message(kind: u8, code: u8, rest: Seq<u8>) -> Seq<u8> {
    control_message(
        kind,
        code,
        checksum_of(word_sum_skipping(control_message(kind, code, 0, rest), 1)),
        rest,
    )
}

/// The echo reply that returns `payload`.
pub open spec fn echo_reply_message(payload: Seq<u8>) -> Seq<u8> {
    checksummed_message(ECHO_REPLY, 0, payload)
}

/// The *time exceeded in transit* message that quotes `datagram`.
pub open spec fn time_exceeded_message(datagram: Seq<u8>) -> Seq<u8> {
    checksummed_message(TIME_EXCEEDED, 0, quotation(datagram))
}

/// The *port unreachable* message that quotes `datagram`.
pub open spec fn destination_unreachable_message(datagram: Seq<u8>) -> Seq<u8> {
    checksummed_message(DESTINATION_UNREACHABLE, PORT_UNREACHABLE, quotation(datagram))
}

/// The answer to a message: an echo request with code zero is answered by an
/// echo reply with the same payload, nothing else is answered.
pub open spec fn echo_response(message: Seq<u8>) -> Option<Seq<u8>> {
    if message[0] == ECHO_REQUEST && message[1] == 0 {
        Some(echo_reply_message(message.skip(4)))
    } else {
        None
    }
}

/// Whether `bytes` can be a control message: a whole header, and no more than
/// a datagram can carry.
pub open spec fn is_control_message(bytes: Seq<u8>) -> bool {
    4 <= bytes.len() <= 0xffff
}

/// The layout of a message with a blank checksum field.
pub(crate) fn blank_message(kind: u8, code: u8, quoting: bool, body: &[u8]) -> (message: Vec<u8>)
    requires
        body@.len() + 8 <= 0x1_8000,
    ensures
        message@ == control_message(
            kind,
            code,
            0,
            if quoting {
                quotation(body@)
            } else {
                body@
            },
        ),
        4 <= message@.len() <= body@.len() + 8,
{
    let mut message: Vec<u8> = Vec::with_capacity(body.len() + 8);
    message.push(kind);
    message.push(code);
    message.push(0);
    message.push(0);
    proof {
        reveal_with_fuel(be_bytes, 3);
        assert(message@ =~= control_message(kind, code, 0, Seq::empty()));
    }
    if quoting {
        message.push(0);
        message.push(0);
        message.push(0);
        message.push(0);
        proof {
            assert(message@ =~= control_message(kind, code, 0, quotation(Seq::empty())));
        }
    }
    push_bytes(&mut message, body);
    proof {
        assert(message@ =~= control_message(
            kind,
            code,
            0,
            if quoting {
                quotation(body@)
            } else {
                body@
            },
        ));
    }
    message
}

/// A message whose checksum field holds `checksum` is the blank message with
/// that word set.
pub proof fn lemma_control_message_is_set_word(kind: u8, code: u8, checksum: u16, rest: Seq<u8>)
    ensures
        control_message(kind, code, checksum, rest) == set_word(
            control_message(kind, code, 0, rest),
            1,
            checksum,
        ),
        control_message(kind, code, checksum, rest).len() == 4 + rest.len(),
{
    reveal_with_fuel(be_bytes, 3);
    assert(control_message(kind, code, checksum, rest) =~= set_word(
        control_message(kind, code, 0, rest),
        1,
        checksum,
    ));
}

/// Where the parts of a message stand in it.
pub proof fn lemma_control_message_parts(kind: u8, code: u8, checksum: u16, rest: Seq<u8>)
    ensures
        control_message(kind, code, checksum, rest).len() == 4 + rest.len(),
        control_message(kind, code, checksum, rest)[0] == kind,
        control_message(kind, code, checksum, rest)[1] == code,
        control_message(kind, code, checksum, rest).subrange(2, 4) == be_bytes(checksum as nat, 2),
        control_message(kind, code, checksum, rest).skip(4) == rest,
{
    let message = control_message(kind, code, checksum, rest);
    lemma_be_bytes_len(checksum as nat, 2);
    assert(message.subrange(2, 4) =~= be_bytes(checksum as nat, 2));
    assert(message.skip(4) =~= rest);
}

/// A message built with its own checksum passes the receiver's test: the sum
/// over all its words folds to all ones.
pub proof fn lemma_checksummed_message_holds(kind: u8, code: u8, rest: Seq<u8>)
    ensures
        message_holds(checksummed_message(kind, code, rest)),
{
    let blank = control_message(kind, code, 0, rest);
    let checksum = checksum_of(word_sum_skipping(blank, 1));
    lemma_control_message_is_set_word(kind, code, 0, rest);
    lemma_control_message_is_set_word(kind, code, checksum, rest);
    lemma_word_sum_nonnegative(blank, 1, word_count(blank));
    lemma_checksum_holds(word_sum_skipping(blank, 1));
    lemma_checksummed_data_holds(blank, 1, 0, checksum);
}

/// An echo request with any payload is answered by an echo reply with the
/// same payload, byte for byte, and with a checksum that holds.
pub proof fn lemma_echo_round_trip(request: Seq<u8>)
    requires
        request.len() >= 4,
        request[0] == ECHO_REQUEST,
        request[1] == 0,
    ensures
        echo_response(request) is Some,
        echo_response(request)->0.len() == request.len(),
        echo_response(request)->0[0] == ECHO_REPLY,
        echo_response(request)->0[1] == 0,
        echo_response(request)->0.skip(4) == request.skip(4),
        message_holds(echo_response(request)->0),
{
    let payload = request.skip(4);
    let blank = control_message(ECHO_REPLY, 0, 0, payload);
    lemma_control_message_parts(ECHO_REPLY, 0, checksum_of(word_sum_skipping(blank, 1)), payload);
    lemma_checksummed_message_holds(ECHO_REPLY, 0, payload);
}

/// A message that quotes a datagram holds its type and code, four bytes of
/// zero and then the datagram, whole and unchanged; its checksum holds.
pub proof fn lemma_quoting_message(kind: u8, code: u8, datagram: Seq<u8>)
    ensures
        ({
            let message = checksummed_message(kind, code, quotation(datagram));
            &&& message.len() == 8 + datagram.len()
            &&& message[0] == kind
            &&& message[1] == code
            &&& message.subrange(4, 8) == seq![0u8, 0u8, 0u8, 0u8]
            &&& message.skip(8) == datagram
            &&& message_holds(message)
        }),
{
    let rest = quotation(datagram);
    let blank = control_message(kind, code, 0, rest);
    let message = checksummed_message(kind, code, rest);
    lemma_control_message_parts(kind, code, checksum_of(word_sum_skipping(blank, 1)), rest);
    lemma_checksummed_message_holds(kind, code, rest);
    assert(message.skip(4) == rest);
    assert(message.subrange(4, 8) =~= message.skip(4).subrange(0, 4));
    assert(message.skip(8) =~= message.skip(4).skip(4));
    assert(rest.skip(4) =~= datagram);
    assert(rest.subrange(0, 4) =~= seq![0u8, 0u8, 0u8, 0u8]);
}

/// Building a message for the same datagram twice, or answering the same
/// message twice, gives the same bytes.
pub proof fn lemma_messages_are_deterministic(
    ip_packet: &Ipv4Datagram,
    icmp_packet: &IcmpMessage,
    first: Vec<u8>,
    second: Vec<u8>,
)
    ensures
        call_ensures(build_icmp_time_exceeded_response, (ip_packet,), first) && call_ensures(
            build_icmp_time_exceeded_response,
            (ip_packet,),
            second,
        ) ==> first@ == second@,
        call_ensures(build_icmp_destination_unreachable_response, (ip_packet,), first)
            && call_ensures(build_icmp_destination_unreachable_response, (ip_packet,), second)
            ==> first@ == second@,
        call_ensures(handle_icmp_packet, (ip_packet, icmp_packet), Some(first)) && call_ensures(
            handle_icmp_packet,
            (ip_packet, icmp_packet),
            Some(second),
        ) ==> first@ == second@,
{
}

/// Builds a message of the given type and code with a valid checksum.
fn build_message(kind: u8, code: u8, quoting: bool, body: &[u8]) -> (message: Vec<u8>)
    requires
        body@.len() + 8 <= 0x1_8000,
    ensures
        message@ == checksummed_message(
            kind,
            code,
            if quoting {
                quotation(body@)
            } else {
                body@
            },
        ),
{
    let mut message: Vec<u8> = blank_message(kind, code, quoting, body);
    let ghost rest = if quoting {
        quotation(body@)
    } else {
        body@
    };
    let checksum: u16 = checksum_skipping(message.as_slice(), CHECKSUM_WORD);
    patch_be_u16(&mut message, 2, checksum);
    proof {
        lemma_control_message_is_set_word(kind, code, checksum, rest);
    }
    message
}

/// An ICMP message that arrived in an IPv4 datagram.
pub struct IcmpMessage<'a> {
    bytes: &'a [u8],
}

impl<'a> View for IcmpMessage<'a> {
    type V = Seq<u8>;

    closed spec fn view(&self) -> Seq<u8> {
        self.bytes@
    }
}

impl<'a> IcmpMessage<'a> {
    #[verifier::type_invariant]
    closed spec fn well_formed(&self) -> bool {
        is_control_message(self.bytes@)
    }

    /// Takes `bytes` as a message if they can be one.
    pub fn new(bytes: &'a [u8]) -> (message: Option<IcmpMessage<'a>>)
        ensures
            message is Some <==> is_control_message(bytes@),
            message is Some ==> message->0@ == bytes@,
    {
        if bytes.len() >= MESSAGE_HEADER_LENGTH && bytes.len() <= MAX_MESSAGE_LENGTH {
            Some(IcmpMessage { bytes })
        } else {
            None
        }
    }

    /// The type of the message.
    pub fn get_icmp_type(&self) -> (kind: u8)
        ensures
            kind == self@[0],
    {
        proof {
            use_type_invariant(self);
        }
        self.bytes[0]
    }

    /// The code of the message.
    pub fn get_icmp_code(&self) -> (code: u8)
        ensures
            code == self@[1],
    {
        proof {
            use_type_invariant(self);
        }
        self.bytes[1]
    }

    /// What stands behind the checksum.
    pub fn payload(&self) -> (payload: &'a [u8])
        ensures
            payload@ == self@.skip(4),
            is_control_message(self@),
    {
        proof {
            use_type_invariant(self);
        }
        slice_subrange(self.bytes, MESSAGE_HEADER_LENGTH, self.bytes.len())
    }
}

/// Handle an incoming ICMP packet and optionally return a response ICMP
/// packet.
pub fn handle_icmp_packet(_ip_packet: &Ipv4Datagram, icmp_packet: &IcmpMessage) -> (response:
    Option<Vec<u8>>)
    ensures
        reply_bytes(response) == echo_response(icmp_packet@),
{
    if icmp_packet.get_icmp_type() == ECHO_REQUEST && icmp_packet.get_icmp_code() == 0 {
        Some(build_icmp_echo_response(icmp_packet.payload()))
    } else {
        None
    }
}

/// Build an ICMP packet that is an echo response and has the provided
/// payload.
fn build_icmp_echo_response(icmp_payload: &[u8]) -> (response: Vec<u8>)
    requires
        icmp_payload@.len() + 8 <= 0x1_8000,
    ensures
        response@ == echo_reply_message(icmp_payload@),
{
    build_message(ECHO_REPLY, 0, false, icmp_payload)
}

/// Build an *ICMP time exceeded* packet that quotes the datagram whose time
/// to live ran out.
pub fn build_icmp_time_exceeded_response(original_ip_packet: &Ipv4Datagram) -> (response: Vec<u8>)
    ensures
        response@ == time_exceeded_message(original_ip_packet@),
{
    build_message(TIME_EXCEEDED, 0, true, original_ip_packet.packet())
}

/// Build an *ICMP destination unreachable* packet that quotes the datagram
/// that could not be delivered.
pub fn build_icmp_destination_unreachable_response(original_ip_packet: &Ipv4Datagram) -> (response:
    Vec<u8>)
    ensures
        response@ == destination_unreachable_message(original_ip_packet@),
{
    build_message(DESTINATION_UNREACHABLE, PORT_UNREACHABLE, true, original_ip_packet.packet())
}

} // verus!

use traceroute_extender::argparse::Arguments;
use traceroute_extender::ip_addrs::{IpAddress, Ipv4Address};
use traceroute_extender::packets::handle;
use traceroute_extender::packets::icmp::{
    build_icmp_destination_unreachable_response, build_icmp_time_exceeded_response,
    handle_icmp_packet, IcmpMessage,
};
use traceroute_extender::packets::ipv4::{build_ipv4_response, handle_ipv4_packet, Ipv4Datagram};

/// The sum of the 16-bit words of `data`, folded with end-around carry.
fn folded_sum(data: &[u8]) -> u32 {
    let mut sum: u32 = 0;
    let mut i = 0;
    while i < data.len() {
        let high = data[i] as u32;
        let low = if i + 1 < data.len() { data[i + 1] as u32 } else { 0 };
        sum += high * 256 + low;
        i += 2;
    }
    while sum > 0xffff {
        sum = (sum & 0xffff) + (sum >> 16);
    }
    sum
}

fn arguments(n_hosts: usize) -> Arguments {
    Arguments::new(
        0,
        String::from("tunTraceRtExt"),
        n_hosts,
        vec![IpAddress::V4(Ipv4Address::new(10, 0, 0, 0))],
    )
    .unwrap()
}

/// An IPv4 datagram without options; its header checksum is left blank,
/// which no handler looks at.
fn datagram(ttl: u8, protocol: u8, source: [u8; 4], destination: [u8; 4], payload: &[u8]) -> Vec<u8> {
    let total = 20 + payload.len();
    let mut bytes = vec![
        0x45,
        0x00,
        (total >> 8) as u8,
        (total & 0xff) as u8,
        0x12,
        0x34,
        0x00,
        0x00,
        ttl,
        protocol,
        0x00,
        0x00,
    ];
    bytes.extend_from_slice(&source);
    bytes.extend_from_slice(&destination);
    bytes.extend_from_slice(payload);
    bytes
}

fn echo_request(payload: &[u8]) -> Vec<u8> {
    let mut message = vec![8, 0, 0, 0, 0x00, 0x01, 0x00, 0x01];
    message.extend_from_slice(payload);
    message
}

const PROBER: [u8; 4] = [192, 0, 2, 10];

const REQUEST_TTL_3: [u8; 32] = [
    0x45, 0x00, 0x00, 0x20, 0x12, 0x34, 0x00, 0x00, 0x03, 0x01, 0xd9, 0x9a, 0xc0, 0x00, 0x02, 0x0a,
    0x0a, 0x00, 0x00, 0x05, 0x08, 0x00, 0x5a, 0x60, 0x00, 0x01, 0x00, 0x01, 0xde, 0xad, 0xbe, 0xef,
];

const REQUEST_TTL_64: [u8; 32] = [
    0x45, 0x00, 0x00, 0x20, 0x12, 0x34, 0x00, 0x00, 0x40, 0x01, 0x9c, 0x9a, 0xc0, 0x00, 0x02, 0x0a,
    0x0a, 0x00, 0x00, 0x05, 0x08, 0x00, 0x5a, 0x60, 0x00, 0x01, 0x00, 0x01, 0xde, 0xad, 0xbe, 0xef,
];

#[test]
fn probe_in_transit_gets_time_exceeded_from_virtual_hop() {
    let reply = handle(&arguments(8), &REQUEST_TTL_3).unwrap();
    let expected: Vec<u8> = vec![
        0x45, 0x00, 0x00, 0x3c, 0x00, 0x2a, 0x40, 0x00, 0x02, 0x01, 0xac, 0x8a, 0x0a, 0x00, 0x00,
        0x03, 0xc0, 0x00, 0x02, 0x0a, 0x0b, 0x00, 0xf4, 0xff, 0x00, 0x00, 0x00, 0x00, 0x45, 0x00,
        0x00, 0x20, 0x12, 0x34, 0x00, 0x00, 0x03, 0x01, 0xd9, 0x9a, 0xc0, 0x00, 0x02, 0x0a, 0x0a,
        0x00, 0x00, 0x05, 0x08, 0x00, 0x5a, 0x60, 0x00, 0x01, 0x00, 0x01, 0xde, 0xad, 0xbe, 0xef,
    ];
    assert_eq!(reply, expected);
    // sourced from 10.0.0.3, destined to the prober, time to live 2
    assert_eq!(&reply[12..16], &[10, 0, 0, 3]);
    assert_eq!(&reply[16..20], &PROBER);
    assert_eq!(reply[8], 2);
    // the original datagram is quoted behind four bytes of zero
    assert_eq!(&reply[28..], &REQUEST_TTL_3[..]);
}

#[test]
fn probe_that_arrived_gets_echo_reply_from_destination() {
    let reply = handle(&arguments(8), &REQUEST_TTL_64).unwrap();
    let expected: Vec<u8> = vec![
        0x45, 0x00, 0x00, 0x20, 0x00, 0x2a, 0x40, 0x00, 0x3f, 0x01, 0x6f, 0xa4, 0x0a, 0x00, 0x00,
        0x05, 0xc0, 0x00, 0x02, 0x0a, 0x00, 0x00, 0x62, 0x60, 0x00, 0x01, 0x00, 0x01, 0xde, 0xad,
        0xbe, 0xef,
    ];
    assert_eq!(reply, expected);
    assert_eq!(&reply[12..16], &[10, 0, 0, 5]);
    assert_eq!(&reply[16..20], &PROBER);
    assert_eq!(&reply[24..], &REQUEST_TTL_64[24..]);
}

#[test]
fn buffer_of_unknown_version_is_dropped() {
    let mut buffer = REQUEST_TTL_64.to_vec();
    buffer[0] = 0x55;
    assert_eq!(handle(&arguments(8), &buffer), None);
    buffer[0] = 0x05;
    assert_eq!(handle(&arguments(8), &buffer), None);
    buffer[0] = 0xf5;
    assert_eq!(handle(&arguments(8), &buffer), None);
}

#[test]
fn empty_buffer_is_dropped() {
    assert_eq!(handle(&arguments(8), &[]), None);
}

#[test]
fn timestamp_request_is_not_answered() {
    let request: Vec<u8> = vec![
        0x45, 0x00, 0x00, 0x28, 0x12, 0x34, 0x00, 0x00, 0x40, 0x01, 0x9c, 0x92, 0xc0, 0x00, 0x02,
        0x0a, 0x0a, 0x00, 0x00, 0x05, 0x0d, 0x00, 0xf2, 0xfd, 0x00, 0x01, 0x00, 0x01, 0x00, 0x00,
        0x00, 0x00, 0x00, 0x00, 0x00, 0x00, 0x00, 0x00, 0x00, 0x00,
    ];
    assert_eq!(handle(&arguments(8), &request), None);
}

#[test]
fn echo_request_with_code_is_not_answered() {
    let mut message = echo_request(&[1, 2, 3]);
    message[1] = 1;
    let request = datagram(64, 1, PROBER, [10, 0, 0, 5], &message);
    assert_eq!(handle(&arguments(8), &request), None);
}

#[test]
fn ttl_equal_to_host_count_has_arrived() {
    let request = datagram(8, 1, PROBER, [10, 0, 0, 5], &echo_request(&[0xaa]));
    let reply = handle(&arguments(8), &request).unwrap();
    assert_eq!(reply[20], 0);
    assert_eq!(&reply[12..16], &[10, 0, 0, 5]);
    assert_eq!(reply[8], 7);
}

#[test]
fn ttl_below_host_count_is_in_transit() {
    let request = datagram(7, 1, PROBER, [10, 0, 0, 5], &echo_request(&[0xaa]));
    let reply = handle(&arguments(8), &request).unwrap();
    assert_eq!(reply[20], 11);
    assert_eq!(&reply[12..16], &[10, 0, 0, 7]);
    assert_eq!(reply[8], 6);
}

#[test]
fn ttl_that_stands_for_destination_has_arrived() {
    let request = datagram(7, 1, PROBER, [10, 0, 0, 7], &echo_request(&[0xaa]));
    let reply = handle(&arguments(8), &request).unwrap();
    assert_eq!(reply[20], 0);
    assert_eq!(&reply[12..16], &[10, 0, 0, 7]);
    assert_eq!(reply[8], 6);
}

#[test]
fn ttl_of_one_leaves_no_reply() {
    // in transit: the candidate 10.0.0.1 is not the destination
    let in_transit = datagram(1, 1, PROBER, [10, 0, 0, 5], &echo_request(&[0xaa]));
    assert_eq!(handle(&arguments(8), &in_transit), None);
    // arrived: the candidate is the destination
    let arrived = datagram(1, 1, PROBER, [10, 0, 0, 1], &echo_request(&[0xaa]));
    assert_eq!(handle(&arguments(8), &arrived), None);
}

#[test]
fn ttl_of_zero_leaves_no_reply() {
    let in_transit = datagram(0, 1, PROBER, [10, 0, 0, 5], &echo_request(&[0xaa]));
    assert_eq!(handle(&arguments(8), &in_transit), None);
    let arrived = datagram(0, 1, PROBER, [10, 0, 0, 0], &echo_request(&[0xaa]));
    assert_eq!(handle(&arguments(8), &arrived), None);
}

#[test]
fn ttl_of_two_is_answered_with_one() {
    let request = datagram(2, 1, PROBER, [10, 0, 0, 5], &echo_request(&[0xaa]));
    let reply = handle(&arguments(8), &request).unwrap();
    assert_eq!(reply[8], 1);
}

#[test]
fn other_protocols_are_not_answered_once_arrived() {
    let udp = datagram(64, 17, PROBER, [10, 0, 0, 5], &[0x9c, 0x40, 0x82, 0x9a, 0, 8, 0, 0]);
    assert_eq!(handle(&arguments(8), &udp), None);
    let tcp = datagram(64, 6, PROBER, [10, 0, 0, 5], &[0; 20]);
    assert_eq!(handle(&arguments(8), &tcp), None);
}

#[test]
fn other_protocols_in_transit_get_time_exceeded() {
    let udp = datagram(4, 17, PROBER, [10, 0, 0, 5], &[0x9c, 0x40, 0x82, 0x9a, 0, 8, 0, 0]);
    let reply = handle(&arguments(8), &udp).unwrap();
    assert_eq!(reply[9], 1);
    assert_eq!(reply[20], 11);
    assert_eq!(reply[21], 0);
    assert_eq!(&reply[12..16], &[10, 0, 0, 4]);
    assert_eq!(&reply[28..], &udp[..]);
}

#[test]
fn malformed_ipv4_datagrams_are_dropped() {
    let whole = REQUEST_TTL_64.to_vec();
    // truncated header
    assert_eq!(handle(&arguments(8), &whole[..19]), None);
    // truncated payload: the total length says more than there is
    assert_eq!(handle(&arguments(8), &whole[..31]), None);
    // bytes behind the datagram
    let mut longer = whole.clone();
    longer.push(0);
    assert_eq!(handle(&arguments(8), &longer), None);
    // a header length below five words
    let mut short_header = whole.clone();
    short_header[0] = 0x44;
    assert_eq!(handle(&arguments(8), &short_header), None);
    // a header that is longer than the datagram
    let mut long_header = whole[..20].to_vec();
    long_header[0] = 0x46;
    long_header[3] = 20;
    assert_eq!(handle(&arguments(8), &long_header), None);
}

#[test]
fn truncated_icmp_message_is_not_answered() {
    let request = datagram(64, 1, PROBER, [10, 0, 0, 5], &[8, 0, 0]);
    assert_eq!(handle(&arguments(8), &request), None);
    let header_only = datagram(64, 1, PROBER, [10, 0, 0, 5], &[8, 0, 0, 0]);
    let reply = handle(&arguments(8), &header_only).unwrap();
    assert_eq!(&reply[20..], &[0, 0, 0xff, 0xff]);
}

#[test]
fn options_in_the_request_are_skipped() {
    let message = echo_request(&[0xde, 0xad]);
    let total = 24 + message.len();
    let mut request = vec![
        0x46,
        0x00,
        0x00,
        total as u8,
        0x12,
        0x34,
        0x00,
        0x00,
        64,
        1,
        0x00,
        0x00,
    ];
    request.extend_from_slice(&PROBER);
    request.extend_from_slice(&[10, 0, 0, 5]);
    request.extend_from_slice(&[1, 1, 1, 0]);
    request.extend_from_slice(&message);
    let reply = handle(&arguments(8), &request).unwrap();
    assert_eq!(reply[0], 0x45);
    assert_eq!(reply.len(), 20 + message.len());
    assert_eq!(reply[20], 0);
    assert_eq!(&reply[24..], &message[4..]);
}

#[test]
fn every_ipv4_reply_is_well_formed() {
    let args = arguments(8);
    for ttl in [2u8, 3, 7, 8, 9, 64, 255] {
        for length in 0..70usize {
            let payload: Vec<u8> = (0..length).map(|i| (i * 37 + 11) as u8).collect();
            let request = datagram(ttl, 1, PROBER, [10, 0, 0, 5], &echo_request(&payload));
            let reply = handle(&args, &request).unwrap();
            // the header checksum verifies
            assert_eq!(folded_sum(&reply[..20]), 0xffff);
            // the total length is the length on the wire
            assert_eq!(reply[2] as usize * 256 + reply[3] as usize, reply.len());
            // the time to live is at least one
            assert!(reply[8] >= 1);
            assert_eq!(reply[8], ttl - 1);
            // version 4, five words, don't fragment, identification 42
            assert_eq!(&reply[..2], &[0x45, 0x00]);
            assert_eq!(&reply[4..8], &[0x00, 42, 0x40, 0x00]);
            assert_eq!(reply[9], 1);
            // the reply goes back to the prober
            assert_eq!(&reply[16..20], &PROBER);
            // the ICMP checksum verifies
            assert_eq!(folded_sum(&reply[20..]), 0xffff);
            if ttl < 8 {
                assert_eq!(&reply[12..16], &[10, 0, 0, ttl]);
                assert_eq!(&reply[20..22], &[11, 0]);
                assert_eq!(&reply[24..28], &[0, 0, 0, 0]);
                assert_eq!(&reply[28..], &request[..]);
            } else {
                assert_eq!(&reply[12..16], &[10, 0, 0, 5]);
                assert_eq!(&reply[20..22], &[0, 0]);
                assert_eq!(&reply[24..], &request[24..]);
            }
        }
    }
}

#[test]
fn echo_reply_returns_payload_unchanged() {
    let payload: Vec<u8> = (0..1400usize).map(|i| (i % 251) as u8).collect();
    let message = echo_request(&payload);
    let request = datagram(64, 1, PROBER, [10, 0, 0, 5], &message);
    let reply = handle(&arguments(8), &request).unwrap();
    assert_eq!(reply.len(), request.len());
    assert_eq!(&reply[28..], &payload[..]);
    assert_eq!(&reply[24..28], &message[4..8]);
}

#[test]
fn same_input_gives_same_reply() {
    let args = arguments(8);
    assert_eq!(handle(&args, &REQUEST_TTL_3), handle(&args, &REQUEST_TTL_3));
    assert_eq!(handle(&args, &REQUEST_TTL_64), handle(&args, &REQUEST_TTL_64));
    let other = arguments(8);
    assert_eq!(handle(&args, &REQUEST_TTL_3), handle(&other, &REQUEST_TTL_3));
}

#[test]
fn reply_that_would_not_fit_a_datagram_is_not_sent() {
    let args = arguments(8);
    // the largest echo request is answered by a reply of the same size
    let largest = datagram(64, 1, PROBER, [10, 0, 0, 5], &echo_request(&vec![0x5a; 65535 - 28]));
    assert_eq!(largest.len(), 65535);
    let reply = handle(&args, &largest).unwrap();
    assert_eq!(reply.len(), 65535);
    assert_eq!(folded_sum(&reply[20..]), 0xffff);
    // quoting adds 28 bytes: the largest datagram that can be quoted has 65507
    let quotable = datagram(3, 1, PROBER, [10, 0, 0, 5], &echo_request(&vec![0x5a; 65507 - 28]));
    let time_exceeded = handle(&args, &quotable).unwrap();
    assert_eq!(time_exceeded.len(), 65535);
    assert_eq!(folded_sum(&time_exceeded[20..]), 0xffff);
    let too_long = datagram(3, 1, PROBER, [10, 0, 0, 5], &echo_request(&vec![0x5a; 65508 - 28]));
    assert_eq!(handle(&args, &too_long), None);
}

#[test]
fn host_count_changes_the_subnet_of_the_virtual_hops() {
    // 200 hosts take eight host bits: the candidate keeps the upper 24 bits
    let args = arguments(200);
    let request = datagram(130, 1, PROBER, [10, 1, 2, 77], &echo_request(&[]));
    let reply = handle(&args, &request).unwrap();
    assert_eq!(&reply[12..16], &[10, 1, 2, 130]);
    assert_eq!(reply[20], 11);
    // one host takes two host bits
    let single = arguments(1);
    let probe = datagram(0x42, 1, PROBER, [10, 1, 2, 77], &echo_request(&[]));
    let answer = handle(&single, &probe).unwrap();
    assert_eq!(answer[20], 0);
    assert_eq!(&answer[12..16], &[10, 1, 2, 77]);
}

#[test]
fn handlers_agree_with_the_demultiplexer() {
    let args = arguments(8);
    let datagram = Ipv4Datagram::new(&REQUEST_TTL_3).unwrap();
    assert_eq!(handle_ipv4_packet(&args, &datagram), handle(&args, &REQUEST_TTL_3));
    assert_eq!(datagram.get_ttl(), 3);
    assert_eq!(datagram.get_next_level_protocol(), 1);
    assert_eq!(datagram.get_source(), Ipv4Address::new(192, 0, 2, 10));
    assert_eq!(datagram.get_destination(), Ipv4Address::new(10, 0, 0, 5));
    assert_eq!(datagram.payload(), &REQUEST_TTL_3[20..]);
    assert_eq!(datagram.packet(), &REQUEST_TTL_3[..]);
    assert!(Ipv4Datagram::new(&REQUEST_TTL_3[..31]).is_none());
}

#[test]
fn icmp_handler_answers_echo_requests_only() {
    let datagram = Ipv4Datagram::new(&REQUEST_TTL_64).unwrap();
    let request = IcmpMessage::new(datagram.payload()).unwrap();
    assert_eq!(request.get_icmp_type(), 8);
    assert_eq!(request.get_icmp_code(), 0);
    assert_eq!(request.payload(), &REQUEST_TTL_64[24..]);
    let reply = handle_icmp_packet(&datagram, &request).unwrap();
    assert_eq!(reply, vec![0x00, 0x00, 0x62, 0x60, 0x00, 0x01, 0x00, 0x01, 0xde, 0xad, 0xbe, 0xef]);
    let echo_reply = IcmpMessage::new(&reply).unwrap();
    assert_eq!(handle_icmp_packet(&datagram, &echo_reply), None);
    assert!(IcmpMessage::new(&reply[..3]).is_none());
    assert!(IcmpMessage::new(&vec![0u8; 65536]).is_none());
    assert!(IcmpMessage::new(&vec![0u8; 65535]).is_some());
}

#[test]
fn time_exceeded_quotes_the_datagram() {
    let datagram = Ipv4Datagram::new(&REQUEST_TTL_3).unwrap();
    let message = build_icmp_time_exceeded_response(&datagram);
    assert_eq!(&message[..8], &[0x0b, 0x00, 0xf4, 0xff, 0x00, 0x00, 0x00, 0x00]);
    assert_eq!(&message[8..], &REQUEST_TTL_3[..]);
    assert_eq!(folded_sum(&message), 0xffff);
}

#[test]
fn destination_unreachable_quotes_the_datagram() {
    let datagram = Ipv4Datagram::new(&REQUEST_TTL_3).unwrap();
    let message = build_icmp_destination_unreachable_response(&datagram);
    // type 3, code 3; the checksum differs from that of time exceeded by the
    // difference of the first word, 0x0b00 - 0x0303
    assert_eq!(&message[..8], &[0x03, 0x03, 0xfc, 0xfc, 0x00, 0x00, 0x00, 0x00]);
    assert_eq!(&message[8..], &REQUEST_TTL_3[..]);
    assert_eq!(folded_sum(&message), 0xffff);
}

#[test]
fn framer_wraps_data_in_a_fresh_header() {
    let request = Ipv4Datagram::new(&REQUEST_TTL_64).unwrap();
    let reply = build_ipv4_response(&request, Ipv4Address::new(10, 0, 0, 9), &[1, 2, 3]).unwrap();
    assert_eq!(reply.len(), 23);
    assert_eq!(&reply[..10], &[0x45, 0x00, 0x00, 23, 0x00, 42, 0x40, 0x00, 63, 1]);
    assert_eq!(&reply[12..16], &[10, 0, 0, 9]);
    assert_eq!(&reply[16..20], &PROBER);
    assert_eq!(&reply[20..], &[1, 2, 3]);
    assert_eq!(folded_sum(&reply[..20]), 0xffff);
    // 65515 bytes of data fit, one more does not
    assert_eq!(
        build_ipv4_response(&request, Ipv4Address::new(10, 0, 0, 9), &vec![0; 65515]).unwrap().len(),
        65535
    );
    assert_eq!(build_ipv4_response(&request, Ipv4Address::new(10, 0, 0, 9), &vec![0; 65516]), None);
    let spent = datagram(1, 1, PROBER, [10, 0, 0, 5], &[]);
    let spent = Ipv4Datagram::new(&spent).unwrap();
    assert_eq!(build_ipv4_response(&spent, Ipv4Address::new(10, 0, 0, 9), &[1, 2, 3]), None);
}

#[test]
fn all_zero_sum_gets_all_ones_checksum() {
    // an echo request without payload: the reply is four bytes whose words
    // sum to zero, so its checksum is all ones
    let request = datagram(64, 1, PROBER, [10, 0, 0, 5], &[8, 0, 0xf7, 0xff]);
    let reply = handle(&arguments(8), &request).unwrap();
    assert_eq!(&reply[20..], &[0x00, 0x00, 0xff, 0xff]);
}

#[test]
fn icmp_checksum_of_zero_is_sent_as_zero() {
    // the words of this reply sum to all ones, so that the complement is zero
    let request = datagram(64, 1, PROBER, [10, 0, 0, 5], &[8, 0, 0, 0, 0x00, 0x01, 0x00, 0x01, 0xff, 0xfd]);
    let reply = handle(&arguments(8), &request).unwrap();
    assert_eq!(&reply[20..], &[0, 0, 0x00, 0x00, 0x00, 0x01, 0x00, 0x01, 0xff, 0xfd]);
    assert_eq!(folded_sum(&reply[20..]), 0xffff);
}

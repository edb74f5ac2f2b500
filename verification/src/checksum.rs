//! The Internet checksum of IPv4 headers and of ICMP and ICMPv6 messages.
//!
//! The checksum is the complement of the one's-complement sum of the data,
//! read as big-endian 16-bit words. Here the sum is taken over the natural
//! numbers and folded at the end: adding with end-around carry keeps a sum
//! unchanged modulo `0xffff` and never turns a positive sum into zero.
//!
//! The arithmetic itself is done by `pnet_packet`; this module states what it
//! computes and proves that a message carrying the computed checksum passes
//! the receiver's test. The statements about `pnet_packet` are taken on trust.

use crate::wire::be_bytes;
use vstd::prelude::*;

verus! {

/// The 16-bit word number `index` of `data`, most significant byte first. A
/// single trailing byte is the high byte of its word; past the end, words are
/// zero.
pub open spec fn word_at(data: Seq<u8>, index: int) -> int {
    if 2 * index + 1 < data.len() {
        data[2 * index] * 256 + data[2 * index + 1]
    } else if 2 * index < data.len() {
        data[2 * index] * 256
    } else {
        0
    }
}

/// The number of 16-bit words in `data`, a trailing byte counted as a word.
pub open spec fn word_count(data: Seq<u8>) -> nat {
    ((data.len() + 1) / 2) as nat
}

/// The sum of the first `count` words of `data`, word number `skip` left out.
pub open spec fn word_sum_upto(data: Seq<u8>, skip: int, count: nat) -> int
    decreases count,
{
    if count == 0 {
        0
    } else {
        let index = count - 1;
        word_sum_upto(data, skip, index as nat) + if index == skip {
            0
        } else {
            word_at(data, index)
        }
    }
}

/// The sum of all words of `data` but word number `skip`: the sum a sender
/// takes, with `skip` the place of the checksum field.
pub open spec fn word_sum_skipping(data: Seq<u8>, skip: int) -> int {
    word_sum_upto(data, skip, word_count(data))
}

/// The sum of all words of `data`: the sum a receiver takes.
pub open spec fn word_sum(data: Seq<u8>) -> int {
    word_sum_upto(data, -1, word_count(data))
}

/// A sum folded to 16 bits with end-around carry: zero stays zero, any other
/// sum becomes the one value in `1..=0xffff` congruent to it modulo `0xffff`.
pub open spec fn fold16(sum: int) -> int {
    if sum <= 0 {
        0
    } else {
        (sum - 1) % 0xffff + 1
    }
}

/// The checksum that goes with a sum: the complement of the folded sum.
pub open spec fn checksum_of(sum: int) -> u16 {
    (0xffff - fold16(sum)) as u16
}

/// A checksum as ICMPv6 sends it: all ones stand in for zero, which is the
/// same number in one's-complement arithmetic.
pub open spec fn never_zero(checksum: u16) -> u16 {
    if checksum == 0 {
        0xffffu16
    } else {
        checksum
    }
}

/// The receiver's test: the sum over everything, checksum included, folds to
/// all ones.
pub open spec fn checksum_holds(sum: int) -> bool {
    fold16(sum) == 0xffff
}

/// `data` with word number `index` replaced by `value`.
pub open spec fn set_word(data: Seq<u8>, index: int, value: u16) -> Seq<u8> {
    data.update(2 * index, (value / 256) as u8).update(2 * index + 1, (value % 256) as u8)
}

/// The sum of the eight 16-bit groups of an IPv6 address.
pub open spec fn address_word_sum(address: u128) -> int {
    word_sum(be_bytes(address as nat, 16))
}

/// The sum over the IPv6 pseudo-header of an upper-layer packet of `length`
/// bytes: both addresses, the length and the next-header value.
pub open spec fn pseudo_header_sum(
    source: u128,
    destination: u128,
    length: nat,
    next_header: u8,
) -> int {
    address_word_sum(source) + address_word_sum(destination) + length + next_header
}

/// Word sums are never negative.
pub proof fn lemma_word_sum_nonnegative(data: Seq<u8>, skip: int, count: nat)
    ensures
        word_sum_upto(data, skip, count) >= 0,
    decreases count,
{
    if count > 0 {
        lemma_word_sum_nonnegative(data, skip, (count - 1) as nat);
    }
}

/// The sum over a pseudo-header is never negative.
pub proof fn lemma_pseudo_header_sum_nonnegative(
    source: u128,
    destination: u128,
    length: nat,
    next_header: u8,
)
    ensures
        pseudo_header_sum(source, destination, length, next_header) >= 0,
{
    lemma_word_sum_nonnegative(
        be_bytes(source as nat, 16),
        -1,
        word_count(be_bytes(source as nat, 16)),
    );
    lemma_word_sum_nonnegative(
        be_bytes(destination as nat, 16),
        -1,
        word_count(be_bytes(destination as nat, 16)),
    );
}

/// A sum together with its own checksum passes the receiver's test, also
/// where all ones stand in for a checksum of zero. A sum of zero has the
/// checksum of all ones.
pub proof fn lemma_checksum_holds(sum: int)
    requires
        sum >= 0,
    ensures
        checksum_holds(sum + checksum_of(sum)),
        checksum_holds(sum + never_zero(checksum_of(sum))),
        checksum_of(sum) == 0xffff - fold16(sum),
        sum == 0 ==> checksum_of(sum) == 0xffff,
{
    if sum > 0 {
        let q = (sum - 1) / 0xffff;
        let r = (sum - 1) % 0xffff;
        assert(sum - 1 == 0xffff * q + r);
        assert((0xffff * q + 0xfffe) % 0xffff == 0xfffe) by (nonlinear_arith)
            requires
                q >= 0,
        ;
        assert((0xffff * (q + 1) + 0xfffe) % 0xffff == 0xfffe) by (nonlinear_arith)
            requires
                q >= 0,
        ;
    }
}

proof fn lemma_word_sum_upto_of_set_word(data: Seq<u8>, index: int, value: u16, count: nat)
    requires
        0 <= index,
        2 * index + 1 < data.len(),
    ensures
        word_sum_upto(set_word(data, index, value), -1, count) == word_sum_upto(data, index, count)
            + if index < count {
            value as int
        } else {
            0
        },
        word_sum_upto(set_word(data, index, value), index, count) == word_sum_upto(
            data,
            index,
            count,
        ),
    decreases count,
{
    if count > 0 {
        lemma_word_sum_upto_of_set_word(data, index, value, (count - 1) as nat);
        let changed = set_word(data, index, value);
        let at = count - 1;
        if at == index {
            assert(word_at(changed, at) == (value / 256) * 256 + value % 256);
        } else {
            assert(word_at(changed, at) == word_at(data, at));
        }
    }
}

/// Writing a value into the checksum field adds it to the sender's sum and
/// leaves that sum itself unchanged.
pub proof fn lemma_word_sum_of_set_word(data: Seq<u8>, index: int, value: u16)
    requires
        0 <= index,
        2 * index + 1 < data.len(),
    ensures
        word_sum(set_word(data, index, value)) == word_sum_skipping(data, index) + value,
        word_sum_skipping(set_word(data, index, value), index) == word_sum_skipping(data, index),
{
    lemma_word_sum_upto_of_set_word(data, index, value, word_count(data));
}

/// Data passes the receiver's test once its checksum field holds a value
/// that completes the sender's sum, whatever `extra` both sides add for a
/// pseudo-header.
pub proof fn lemma_checksummed_data_holds(data: Seq<u8>, index: int, extra: int, value: u16)
    requires
        0 <= index,
        2 * index + 1 < data.len(),
        checksum_holds(extra + word_sum_skipping(data, index) + value),
    ensures
        checksum_holds(extra + word_sum(set_word(data, index, value))),
{
    lemma_word_sum_of_set_word(data, index, value);
}

/// The checksum of `data` with word number `skipword` taken as zero, by
/// `pnet_packet::util::checksum`.
///
/// The contract is not proved; it says what that function does. It adds up
/// the big-endian words of `data`, a trailing byte as the high byte of a
/// word, leaves out the word at `skipword`, folds the carries into the low 16
/// bits and complements. It adds in 32 bits, which cannot overflow on the
/// 0xc000 words admitted here, and it gives zero for empty data, which is not
/// admitted.
#[verifier::external_body]
pub(crate) fn checksum_skipping(data: &[u8], skipword: usize) -> (checksum: u16)
    requires
        1 <= data@.len() <= 0x1_8000,
    ensures
        checksum == checksum_of(word_sum_skipping(data@, skipword as int)),
{
    pnet_packet::util::checksum(data, skipword)
}

/// The checksum of `data` over IPv6 from `source` to `destination`, with word
/// number `skipword` taken as zero, by `pnet_packet::util::ipv6_checksum`.
///
/// The contract is not proved; it says what that function does. It adds the
/// eight groups of each address, the next-header value and the length of
/// `data` to the words of `data`, summed as by `checksum_skipping`, folds the
/// carries and complements. It adds in 32 bits, which cannot overflow on the
/// 0xc000 words admitted here.
#[verifier::external_body]
pub(crate) fn ipv6_checksum_skipping(
    data: &[u8],
    skipword: usize,
    source: u128,
    destination: u128,
    next_header: u8,
) -> (checksum: u16)
    requires
        data@.len() <= 0x1_8000,
    ensures
        checksum == checksum_of(
            pseudo_header_sum(source, destination, data@.len(), next_header) + word_sum_skipping(
                data@,
                skipword as int,
            ),
        ),
{
    pnet_packet::util::ipv6_checksum(
        data,
        skipword,
        &[],
        &source.into(),
        &destination.into(),
        pnet_packet::ip::IpNextHeaderProtocol(next_header),
    )
}

/// All ones in place of a checksum of zero.
pub(crate) fn never_zero_checksum(checksum: u16) -> (sent: u16)
    ensures
        sent == never_zero(checksum),
{
    if checksum == 0 {
        0xffff
    } else {
        checksum
    }
}

} // verus!

//! Address arithmetic inside a virtual subnet.
//!
//! Addresses are handled as the unsigned integer that their octets spell in
//! network byte order, so that masks and host numbers are plain bit
//! operations.

use vstd::arithmetic::div_mod::lemma_fundamental_div_mod_converse;
use vstd::arithmetic::power2::{
    lemma2_to64, lemma_pow2_adds, lemma_pow2_pos, lemma_pow2_strictly_increases,
    lemma_pow2_unfold, pow2,
};
use vstd::bits::{lemma_u128_shr_is_div, lemma_u32_shr_is_div};
use vstd::prelude::*;

verus! {

/// An IPv4 address: `bits` is the big-endian integer of its four octets.
#[derive(Clone, Copy, Debug, PartialEq, Eq, Structural)]
pub struct Ipv4Address {
    pub bits: u32,
}

/// An IPv6 address: `bits` is the big-endian integer of its sixteen octets.
#[derive(Clone, Copy, Debug, PartialEq, Eq, Structural)]
pub struct Ipv6Address {
    pub bits: u128,
}

/// An address of either family.
#[derive(Clone, Copy, Debug, PartialEq, Eq, Structural)]
pub enum IpAddress {
    V4(Ipv4Address),
    V6(Ipv6Address),
}

impl Ipv4Address {
    /// The address `a.b.c.d`.
    pub fn new(a: u8, b: u8, c: u8, d: u8) -> (address: Ipv4Address)
        ensures
            address.bits == a * 0x100_0000 + b * 0x1_0000 + c * 0x100 + d,
    {
        Ipv4Address {
            bits: (a as u32) * 0x100_0000 + (b as u32) * 0x1_0000 + (c as u32) * 0x100 + (d as u32),
        }
    }
}

impl Ipv6Address {
    /// The address whose eight 16-bit groups are `a` to `h`.
    pub fn new(a: u16, b: u16, c: u16, d: u16, e: u16, f: u16, g: u16, h: u16) -> (address:
        Ipv6Address)
        ensures
            address.bits == a * 0x1_0000_0000_0000_0000_0000_0000_0000 + b
                * 0x1_0000_0000_0000_0000_0000_0000 + c * 0x1_0000_0000_0000_0000_0000 + d
                * 0x1_0000_0000_0000_0000 + e * 0x1_0000_0000_0000 + f * 0x1_0000_0000 + g
                * 0x1_0000 + h,
    {
        let high: u64 = (a as u64) * 0x1_0000_0000_0000 + (b as u64) * 0x1_0000_0000 + (c as u64)
            * 0x1_0000 + (d as u64);
        let low: u64 = (e as u64) * 0x1_0000_0000_0000 + (f as u64) * 0x1_0000_0000 + (g as u64)
            * 0x1_0000 + (h as u64);
        Ipv6Address { bits: (high as u128) * 0x1_0000_0000_0000_0000 + (low as u128) }
    }
}

/// The IPv4 netmask of a prefix length: that many leading one bits, the rest
/// zero.
pub open spec fn netmask4(prefix_length: u32) -> u32 {
    if prefix_length >= 32 {
        0xffff_ffffu32
    } else {
        !(0xffff_ffffu32 >> prefix_length)
    }
}

/// The IPv6 netmask of a prefix length: that many leading one bits, the rest
/// zero.
pub open spec fn netmask6(prefix_length: usize) -> u128 {
    if prefix_length >= 128 {
        0xffff_ffff_ffff_ffff_ffff_ffff_ffff_ffffu128
    } else {
        !(0xffff_ffff_ffff_ffff_ffff_ffff_ffff_ffffu128 >> prefix_length)
    }
}

/// Host number `n` of the IPv4 subnet that holds `network`: the network part
/// of `network` with the low bits of `n` as host part.
pub open spec fn nth_address4(n: u32, prefix_length: u32, network: u32) -> u32 {
    (network & netmask4(prefix_length)) | (n & !netmask4(prefix_length))
}

/// Host number `n` of the IPv6 subnet that holds `network`.
pub open spec fn nth_address6(n: u128, prefix_length: usize, network: u128) -> u128 {
    (network & netmask6(prefix_length)) | (n & !netmask6(prefix_length))
}

/// `bits` is the number of host bits a subnet needs for `n_hosts` hosts plus
/// the two reserved addresses: the least exponent whose power of two reaches
/// `n_hosts + 2`.
pub open spec fn is_host_bits(n_hosts: nat, bits: nat) -> bool {
    &&& bits >= 1
    &&& pow2(bits) >= n_hosts + 2
    &&& pow2((bits - 1) as nat) < n_hosts + 2
}

/// The number of host bits for `n_hosts` hosts, `ceil(log2(n_hosts + 2))`.
pub open spec fn host_bits(n_hosts: nat) -> nat {
    choose|bits: nat| is_host_bits(n_hosts, bits)
}

/// Powers of two grow with the exponent.
proof fn lemma_pow2_monotonic(a: nat, b: nat)
    requires
        a <= b,
    ensures
        pow2(a) <= pow2(b),
{
    if a < b {
        lemma_pow2_strictly_increases(a, b);
    }
}

/// At most one exponent is the number of host bits of a host count.
pub proof fn lemma_host_bits_unique(n_hosts: nat, a: nat, b: nat)
    requires
        is_host_bits(n_hosts, a),
        is_host_bits(n_hosts, b),
    ensures
        a == b,
{
    if a < b {
        lemma_pow2_monotonic(a, (b - 1) as nat);
    } else if b < a {
        lemma_pow2_monotonic(b, (a - 1) as nat);
    }
}

/// The IPv4 prefix length that leaves room for `n_hosts` hosts:
/// `32 - ceil(log2(n_hosts + 2))`.
pub open spec fn netmask_size4(n_hosts: usize) -> int {
    32 - host_bits(n_hosts as nat)
}

/// The IPv6 prefix length that leaves room for `n_hosts` hosts:
/// `128 - ceil(log2(n_hosts + 2))`.
pub open spec fn netmask_size6(n_hosts: usize) -> int {
    128 - host_bits(n_hosts as nat)
}

/// Whether `address` lies in the IPv4 subnet that holds `network`.
pub open spec fn in_subnet4(address: u32, prefix_length: u32, network: u32) -> bool {
    address & netmask4(prefix_length) == network & netmask4(prefix_length)
}

/// Whether `address` lies in the IPv6 subnet that holds `network`.
pub open spec fn in_subnet6(address: u128, prefix_length: usize, network: u128) -> bool {
    address & netmask6(prefix_length) == network & netmask6(prefix_length)
}

/// The number of addresses in a subnet with `host_bits` host bits.
pub open spec fn subnet_size(host_bits: nat) -> nat {
    pow2(host_bits)
}

/// Every host number yields an address inside the subnet of the network it
/// was derived from, and the address keeps the low bits of the host number.
pub proof fn lemma_nth_address4_in_subnet(n: u32, prefix_length: u32, network: u32)
    ensures
        in_subnet4(nth_address4(n, prefix_length, network), prefix_length, network),
        nth_address4(n, prefix_length, network) & !netmask4(prefix_length) == n & !netmask4(
            prefix_length,
        ),
{
    let mask = netmask4(prefix_length);
    assert(((network & mask) | (n & !mask)) & mask == network & mask) by (bit_vector);
    assert(((network & mask) | (n & !mask)) & !mask == n & !mask) by (bit_vector);
}

/// Every host number yields an address inside the subnet of the network it
/// was derived from, and the address keeps the low bits of the host number.
pub proof fn lemma_nth_address6_in_subnet(n: u128, prefix_length: usize, network: u128)
    ensures
        in_subnet6(nth_address6(n, prefix_length, network), prefix_length, network),
        nth_address6(n, prefix_length, network) & !netmask6(prefix_length) == n & !netmask6(
            prefix_length,
        ),
{
    let mask = netmask6(prefix_length);
    assert(((network & mask) | (n & !mask)) & mask == network & mask) by (bit_vector);
    assert(((network & mask) | (n & !mask)) & !mask == n & !mask) by (bit_vector);
}

/// A host number below the size of the subnet is the distance of its address
/// from the base of the subnet.
pub proof fn lemma_nth_address4_offset(n: u32, prefix_length: u32, network: u32)
    requires
        prefix_length <= 32,
        n < subnet_size((32 - prefix_length) as nat),
    ensures
        nth_address4(n, prefix_length, network) == (network & netmask4(prefix_length)) + n,
{
    lemma_netmask4_value(prefix_length);
    let mask = netmask4(prefix_length);
    assert(n <= !mask);
    if prefix_length >= 32 {
        assert(n == 0 ==> ((network & 0xffff_ffffu32) | (n & !0xffff_ffffu32)) == (network
            & 0xffff_ffffu32) + n) by (bit_vector);
    } else {
        assert(prefix_length < 32 && n <= (0xffff_ffffu32 >> prefix_length) ==> ((network & !(
        0xffff_ffffu32 >> prefix_length)) | (n & !!(0xffff_ffffu32 >> prefix_length))) == (network
            & !(0xffff_ffffu32 >> prefix_length)) + n) by (bit_vector);
        assert(!mask == 0xffff_ffffu32 >> prefix_length) by (bit_vector)
            requires
                mask == !(0xffff_ffffu32 >> prefix_length),
        ;
    }
}

/// A host number below the size of the subnet is the distance of its address
/// from the base of the subnet.
pub proof fn lemma_nth_address6_offset(n: u128, prefix_length: usize, network: u128)
    requires
        prefix_length <= 128,
        n < subnet_size((128 - prefix_length) as nat),
    ensures
        nth_address6(n, prefix_length, network) == (network & netmask6(prefix_length)) + n,
{
    lemma_netmask6_value(prefix_length);
    let mask = netmask6(prefix_length);
    let shift = prefix_length as u128;
    assert(n <= !mask);
    if prefix_length >= 128 {
        assert(n == 0 ==> ((network & 0xffff_ffff_ffff_ffff_ffff_ffff_ffff_ffffu128) | (n
            & !0xffff_ffff_ffff_ffff_ffff_ffff_ffff_ffffu128)) == (network
            & 0xffff_ffff_ffff_ffff_ffff_ffff_ffff_ffffu128) + n) by (bit_vector);
    } else {
        assert(shift < 128 && n <= (0xffff_ffff_ffff_ffff_ffff_ffff_ffff_ffffu128 >> shift) ==> ((
        network & !(0xffff_ffff_ffff_ffff_ffff_ffff_ffff_ffffu128 >> shift)) | (n & !!(
        0xffff_ffff_ffff_ffff_ffff_ffff_ffff_ffffu128 >> shift))) == (network & !(
        0xffff_ffff_ffff_ffff_ffff_ffff_ffff_ffffu128 >> shift)) + n) by (bit_vector);
        assert(!mask == 0xffff_ffff_ffff_ffff_ffff_ffff_ffff_ffffu128 >> shift) by (bit_vector)
            requires
                mask == !(0xffff_ffff_ffff_ffff_ffff_ffff_ffff_ffffu128 >> shift),
        ;
    }
}

/// Host number one is never the base address of a subnet that has host bits.
pub proof fn lemma_first_address4_is_not_network(prefix_length: u32, network: u32)
    requires
        prefix_length < 32,
    ensures
        nth_address4(1, prefix_length, network) != network & netmask4(prefix_length),
{
    assert(prefix_length < 32 ==> ((network & !(0xffff_ffffu32 >> prefix_length)) | (1u32 & !!(
    0xffff_ffffu32 >> prefix_length))) != (network & !(0xffff_ffffu32 >> prefix_length)))
        by (bit_vector);
}

/// Host number one is never the base address of a subnet that has host bits.
pub proof fn lemma_first_address6_is_not_network(prefix_length: usize, network: u128)
    requires
        prefix_length < 128,
    ensures
        nth_address6(1, prefix_length, network) != network & netmask6(prefix_length),
{
    let p = prefix_length as u128;
    assert(p < 128 ==> ((network & !(0xffff_ffff_ffff_ffff_ffff_ffff_ffff_ffffu128 >> p)) | (1u128
        & !!(0xffff_ffff_ffff_ffff_ffff_ffff_ffff_ffffu128 >> p))) != (network & !(
    0xffff_ffff_ffff_ffff_ffff_ffff_ffff_ffffu128 >> p))) by (bit_vector);
}

/// `2^width - 1`, shifted right by `shift` bits, is `2^(width - shift) - 1`.
proof fn lemma_all_ones_shifted(width: nat, shift: nat)
    requires
        shift <= width,
    ensures
        (pow2(width) - 1) / (pow2(shift) as int) == pow2((width - shift) as nat) - 1,
{
    let d = pow2(shift) as int;
    let q = pow2((width - shift) as nat) as int;
    lemma_pow2_adds(shift, (width - shift) as nat);
    lemma_pow2_pos(shift);
    lemma_pow2_pos((width - shift) as nat);
    assert(pow2(width) == d * q);
    assert(d * q - 1 == d * (q - 1) + (d - 1)) by (nonlinear_arith);
    lemma_fundamental_div_mod_converse(pow2(width) - 1, d, q - 1, d - 1);
}

/// A netmask of `prefix_length` bits has that many leading one bits: as a
/// number it is `2^32 - 2^(32 - prefix_length)`, so the addresses that share
/// a network part are as many as the subnet size.
pub proof fn lemma_netmask4_value(prefix_length: u32)
    requires
        prefix_length <= 32,
    ensures
        netmask4(prefix_length) == 0x1_0000_0000 - subnet_size((32 - prefix_length) as nat),
        !netmask4(prefix_length) + 1 == subnet_size((32 - prefix_length) as nat),
{
    lemma2_to64();
    let mask = netmask4(prefix_length);
    assert(!mask == 0xffff_ffff - mask) by (bit_vector);
    if prefix_length < 32 {
        let low = 0xffff_ffffu32 >> prefix_length;
        lemma_u32_shr_is_div(0xffff_ffffu32, prefix_length);
        lemma_all_ones_shifted(32, prefix_length as nat);
        assert(!low == 0xffff_ffff - low) by (bit_vector);
    }
}

/// A prefix of `prefix_length` bits has that many leading one bits: as a
/// number it is `2^128 - 2^(128 - prefix_length)`.
pub proof fn lemma_netmask6_value(prefix_length: usize)
    requires
        prefix_length <= 128,
    ensures
        netmask6(prefix_length) == 0x1_0000_0000_0000_0000_0000_0000_0000_0000 - subnet_size(
            (128 - prefix_length) as nat,
        ),
        !netmask6(prefix_length) + 1 == subnet_size((128 - prefix_length) as nat),
{
    lemma2_to64();
    lemma_pow2_adds(64, 64);
    let mask = netmask6(prefix_length);
    assert(!mask == 0xffff_ffff_ffff_ffff_ffff_ffff_ffff_ffff - mask) by (bit_vector);
    if prefix_length < 128 {
        let shift = prefix_length as u128;
        let low = 0xffff_ffff_ffff_ffff_ffff_ffff_ffff_ffffu128 >> shift;
        lemma_u128_shr_is_div(0xffff_ffff_ffff_ffff_ffff_ffff_ffff_ffffu128, shift);
        lemma_all_ones_shifted(128, prefix_length as nat);
        assert(!low == 0xffff_ffff_ffff_ffff_ffff_ffff_ffff_ffff - low) by (bit_vector);
        assert(low == 0xffff_ffff_ffff_ffff_ffff_ffff_ffff_ffffu128 >> prefix_length);
    }
}

/// The prefix derived from a host count leaves a subnet large enough for the
/// hosts and the two reserved addresses, and no prefix longer by one bit
/// would.
pub proof fn lemma_derived_subnet_holds_hosts(n_hosts: usize)
    ensures
        subnet_size(host_bits(n_hosts as nat)) >= n_hosts + 2,
        subnet_size((host_bits(n_hosts as nat) - 1) as nat) < n_hosts + 2,
        subnet_size((32 - netmask_size4(n_hosts)) as nat) >= n_hosts + 2,
        subnet_size((128 - netmask_size6(n_hosts)) as nat) >= n_hosts + 2,
{
    lemma_host_bits_exist(n_hosts as nat);
}

/// A single host takes two host bits: the smallest subnet holds the host and
/// the two reserved addresses, and one address more.
pub proof fn lemma_single_host()
    ensures
        host_bits(1) == 2,
        netmask_size4(1) == 30,
        netmask_size6(1) == 126,
        subnet_size(host_bits(1)) == 4,
{
    lemma2_to64();
    assert(is_host_bits(1, 2));
    lemma_host_bits_exist(1);
    lemma_host_bits_unique(1, 2, host_bits(1));
}

/// A host count that fits the machine takes at most 65 host bits.
pub proof fn lemma_host_bits_at_most_65(n_hosts: usize)
    ensures
        1 <= host_bits(n_hosts as nat) <= 65,
        63 <= netmask_size6(n_hosts) <= 127,
{
    lemma_host_bits_exist(n_hosts as nat);
    lemma2_to64();
    lemma_pow2_unfold(65);
    let bits = host_bits(n_hosts as nat);
    if bits > 65 {
        lemma_pow2_monotonic(65, (bits - 1) as nat);
    }
}

/// An IPv4 prefix derived from a host count is shorter than the address.
pub proof fn lemma_netmask_size4_bound(n_hosts: usize)
    ensures
        netmask_size4(n_hosts) <= 31,
        netmask_size4(n_hosts) >= 0 <==> n_hosts + 2 <= 0x1_0000_0000,
{
    lemma_host_bits_exist(n_hosts as nat);
    lemma2_to64();
    let bits = host_bits(n_hosts as nat);
    if n_hosts + 2 <= 0x1_0000_0000 {
        if bits > 32 {
            lemma_pow2_monotonic(32, (bits - 1) as nat);
        }
    } else {
        if bits <= 32 {
            lemma_pow2_monotonic(bits, 32);
        }
    }
}

/// Every host count has a number of host bits.
pub proof fn lemma_host_bits_exist(n_hosts: nat)
    ensures
        is_host_bits(n_hosts, host_bits(n_hosts)),
{
    lemma2_to64();
    lemma_host_bits_search(n_hosts, 1);
}

proof fn lemma_host_bits_search(n_hosts: nat, bits: nat)
    requires
        bits >= 1,
        pow2((bits - 1) as nat) < n_hosts + 2,
    ensures
        exists|found: nat| is_host_bits(n_hosts, found),
    decreases n_hosts + 2 - pow2((bits - 1) as nat),
{
    if pow2(bits) >= n_hosts + 2 {
        assert(is_host_bits(n_hosts, bits));
    } else {
        lemma_pow2_strictly_increases((bits - 1) as nat, bits);
        lemma_host_bits_search(n_hosts, bits + 1);
    }
}

/// Computes the number of host bits for `n` hosts.
fn compute_host_bits(n: usize) -> (bits: u32)
    ensures
        1 <= bits <= 65,
        is_host_bits(n as nat, bits as nat),
        bits == host_bits(n as nat),
{
    let needed: u128 = n as u128 + 2;
    let mut bits: u32 = 1;
    let mut capacity: u128 = 2;
    proof {
        lemma2_to64();
    }
    while capacity < needed
        invariant
            1 <= bits <= 65,
            needed == n + 2,
            capacity == pow2(bits as nat),
            pow2((bits - 1) as nat) < needed,
        decreases 65 - bits,
    {
        proof {
            lemma2_to64();
            lemma_pow2_unfold(65);
            if bits >= 65 {
                lemma_pow2_monotonic(65, bits as nat);
            }
            lemma_pow2_unfold((bits + 1) as nat);
            if bits < 64 {
                lemma_pow2_strictly_increases(bits as nat, 64);
            }
        }
        capacity = capacity * 2;
        bits = bits + 1;
    }
    proof {
        assert(is_host_bits(n as nat, bits as nat));
        lemma_host_bits_unique(n as nat, bits as nat, host_bits(n as nat));
    }
    bits
}

/// Whether `n` hosts and the two reserved addresses fit an IPv4 subnet with
/// a prefix of at least one bit.
pub fn n_hosts_fit_ipv4(n: usize) -> (fit: bool)
    ensures
        fit <==> netmask_size4(n) >= 1,
        fit <==> n + 2 <= 0x8000_0000,
{
    let bits: u32 = compute_host_bits(n);
    proof {
        lemma2_to64();
        if n + 2 <= 0x8000_0000 {
            if bits > 31 {
                lemma_pow2_monotonic(31, (bits - 1) as nat);
            }
        } else {
            if bits <= 31 {
                lemma_pow2_monotonic(bits as nat, 31);
            }
        }
    }
    bits <= 31
}

/// Calculate the size an IPv4 netmask would need to encompass the number of
/// hosts, the network and the broadcast address.
pub fn calc_netmask_size_with_n_hosts4(n: usize) -> (size: u32)
    requires
        n + 2 <= 0x1_0000_0000,
    ensures
        size <= 31,
        size == netmask_size4(n),
        is_host_bits(n as nat, (32 - size) as nat),
{
    let bits: u32 = compute_host_bits(n);
    proof {
        lemma2_to64();
        if bits > 32 {
            lemma_pow2_monotonic(32, (bits - 1) as nat);
        }
    }
    32 - bits
}

/// Calculate the size an IPv6 netmask would need to encompass the number of
/// hosts and two reserved addresses.
pub fn calc_netmask_size_with_n_hosts6(n: usize) -> (size: usize)
    ensures
        63 <= size <= 127,
        size == netmask_size6(n),
        is_host_bits(n as nat, (128 - size) as nat),
{
    let bits: u32 = compute_host_bits(n);
    128 - bits as usize
}

/// Calculate an IPv4 netmask from a given size.
pub fn calc_netmask_from_size4(size: u32) -> (netmask: Ipv4Address)
    requires
        size <= 32,
    ensures
        netmask.bits == netmask4(size),
{
    if size >= 32 {
        Ipv4Address { bits: 0xffff_ffffu32 }
    } else {
        Ipv4Address { bits: !(0xffff_ffffu32 >> size) }
    }
}

/// Calculate an IPv6 netmask from a given prefix length.
pub fn calc_netmask_from_size6(prefix_length: usize) -> (netmask: Ipv6Address)
    requires
        prefix_length <= 128,
    ensures
        netmask.bits == netmask6(prefix_length),
{
    if prefix_length >= 128 {
        Ipv6Address { bits: 0xffff_ffff_ffff_ffff_ffff_ffff_ffff_ffffu128 }
    } else {
        Ipv6Address { bits: !(0xffff_ffff_ffff_ffff_ffff_ffff_ffff_ffffu128 >> prefix_length) }
    }
}

/// The address of host number `n` in the subnet of `network_address` under a
/// netmask of `netmask_size` bits. Bits of `n` above the host part are
/// dropped.
pub fn get_nth_address_in_network4(
    n: u32,
    netmask_size: u32,
    network_address: &Ipv4Address,
) -> (address: Ipv4Address)
    requires
        netmask_size <= 32,
    ensures
        address.bits == nth_address4(n, netmask_size, network_address.bits),
{
    let netmask: u32 = calc_netmask_from_size4(netmask_size).bits;
    let network: u32 = network_address.bits & netmask;
    Ipv4Address { bits: network | (n & !netmask) }
}

/// The address of host number `n` in the subnet of `network` under a prefix
/// of `prefix_length` bits. Bits of `n` above the host part are dropped.
pub fn get_nth_address_in_network6(
    n: usize,
    prefix_length: usize,
    network: &Ipv6Address,
) -> (address: Ipv6Address)
    requires
        prefix_length <= 128,
    ensures
        address.bits == nth_address6(n as u128, prefix_length, network.bits),
{
    let netmask: u128 = calc_netmask_from_size6(prefix_length).bits;
    let network_bits: u128 = network.bits & netmask;
    Ipv6Address { bits: network_bits | (n as u128 & !netmask) }
}

} // verus!

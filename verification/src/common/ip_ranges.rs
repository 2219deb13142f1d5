//! Hard IP/port filter against Zoom's published server ranges.
//!
//! The ranges are Zoom's officially published TCP/UDP server list, baked in
//! as a constant table rather than loaded at run time: it is small, changes
//! rarely, and a capture tool that may run as root from cron/systemd is
//! better off without a startup file dependency. Each entry carries the
//! published CIDR text beside it; re-copy from a fresh list periodically.
//!
//! This is a hard filter: a packet whose endpoints are both off this list
//! is dropped before its payload is even parsed (see
//! `capture_logic::zoom::udp`).
use crate::common::headers::be_u32;
use vstd::arithmetic::div_mod::{lemma_fundamental_div_mod, lemma_mod_bound};
use vstd::arithmetic::power2::{lemma2_to64, lemma_pow2_adds, lemma_pow2_pos, pow2};
use vstd::bits::lemma_u128_shr_is_div;
use vstd::prelude::*;
use vstd::string::StringSliceAdditionalSpecFns;

verus! {

/// TCP ports Zoom clients use.
pub const ZOOM_TCP_PORTS: [u16; 3] = [443, 8801, 8802];

/// The UDP ports Zoom clients use: 3478, 3479 and the range 8801-8810.
pub open spec fn is_zoom_udp_port_spec(port: u16) -> bool {
    port == 3478 || port == 3479 || (8801 <= port && port <= 8810)
}

/// UDP ports Zoom clients use. 8801-8810 is a range in the published
/// list, not individually enumerated ports.
pub fn is_zoom_udp_port(port: u16) -> (r: bool)
    ensures
        r == is_zoom_udp_port_spec(port),
{
    port == 3478 || port == 3479 || (8801 <= port && port <= 8810)
}

/// TCP ports Zoom clients use: one of `ZOOM_TCP_PORTS`.
pub fn is_zoom_tcp_port(port: u16) -> (r: bool)
    ensures
        r == ZOOM_TCP_PORTS@.contains(port),
{
    let mut i: usize = 0;
    while i < ZOOM_TCP_PORTS.len()
        invariant
            0 <= i <= ZOOM_TCP_PORTS@.len(),
            forall|j: int| 0 <= j < i ==> ZOOM_TCP_PORTS@[j] != port,
        decreases ZOOM_TCP_PORTS@.len() - i,
    {
        if ZOOM_TCP_PORTS[i] == port {
            return true;
        }
        i += 1;
    }
    false
}

/// An IPv4 CIDR block: `base` is the network address, `prefix_len` the
/// mask length (0-32).
#[derive(Debug, Clone, Copy, PartialEq, Eq, Structural)]
pub struct Cidr4 {
    pub base: u32,
    pub prefix_len: u8,
}

/// `ip` agrees with the block's address on its first `prefix_len` bits.
pub open spec fn cidr4_contains(c: Cidr4, ip: u32) -> bool {
    ip >> ((32 - c.prefix_len) as u32) == c.base >> ((32 - c.prefix_len) as u32)
}

impl Cidr4 {
    /// Whether `ip` lies in this block.
    pub fn contains(&self, ip: u32) -> (r: bool)
        requires
            self.prefix_len <= 32,
        ensures
            r == cidr4_contains(*self, ip),
    {
        if self.prefix_len == 0 {
            let base = self.base;
            assert(ip >> 32u32 == 0u32 && base >> 32u32 == 0u32) by (bit_vector);
            return true;
        }
        let shift: u8 = 32 - self.prefix_len;
        let mask = u32::MAX << shift;
        let base = self.base;
        assert(((ip & mask) == (base & mask)) == ((ip >> (shift as u32)) == (base >> (shift as u32))))
            by (bit_vector)
            requires
                mask == 0xffff_ffffu32 << shift,
                shift < 32,
        ;
        (ip & mask) == (base & mask)
    }
}

/// The first address of an IPv4 block: its base with the host bits cleared.
pub open spec fn cidr4_network(c: Cidr4) -> u32 {
    (c.base >> ((32 - c.prefix_len) as u32)) << ((32 - c.prefix_len) as u32)
}

/// A /n IPv4 block is exactly the 2^(32-n) consecutive addresses that start
/// at its network address: e.g. 3.7.35.0/25 covers .0 through .127 and not
/// .128.
pub proof fn lemma_cidr4_is_an_address_interval(c: Cidr4, ip: u32)
    requires
        c.prefix_len <= 32,
    ensures
        cidr4_contains(c, ip) <==> (cidr4_network(c) <= ip && (ip as u64) < (cidr4_network(c)
            as u64) + (1u64 << ((32 - c.prefix_len) as u64))),
{
    let s: u32 = (32 - c.prefix_len) as u32;
    let base = c.base;
    assert((ip >> s == base >> s) <==> (((base >> s) << s) <= ip && (ip as u64) < (((base >> s)
        << s) as u64) + (1u64 << (s as u64)))) by (bit_vector)
        requires
            s <= 32,
    ;
}

/// An IPv6 CIDR block, same idea as [`Cidr4`] but over a 128-bit space.
#[derive(Debug, Clone, Copy, PartialEq, Eq, Structural)]
pub struct Cidr6 {
    pub base: u128,
    pub prefix_len: u8,
}

/// `ip` agrees with the block's address on its first `prefix_len` bits.
pub open spec fn cidr6_contains(c: Cidr6, ip: u128) -> bool {
    ip >> ((128 - c.prefix_len) as u128) == c.base >> ((128 - c.prefix_len) as u128)
}

impl Cidr6 {
    /// Whether `ip` lies in this block.
    pub fn contains(&self, ip: u128) -> (r: bool)
        requires
            self.prefix_len <= 128,
        ensures
            r == cidr6_contains(*self, ip),
    {
        if self.prefix_len == 0 {
            let base = self.base;
            assert(ip >> 128u128 == 0u128 && base >> 128u128 == 0u128) by (bit_vector);
            return true;
        }
        // Comparing the bits above the host part directly is the same test
        // as comparing both addresses under the network mask.
        let shift: u8 = 128 - self.prefix_len;
        (ip >> shift) == (self.base >> shift)
    }
}

/// The first address of an IPv6 block: its base rounded down to a
/// multiple of the block's size.
pub open spec fn cidr6_first(c: Cidr6) -> int {
    let size = pow2((128 - c.prefix_len) as nat) as int;
    (c.base as int / size) * size
}

/// A /n IPv6 block is exactly the 2^(128-n) consecutive addresses that
/// start at its first address.
pub proof fn lemma_cidr6_is_an_address_interval(c: Cidr6, ip: u128)
    requires
        c.prefix_len <= 128,
    ensures
        cidr6_contains(c, ip) <==> (cidr6_first(c) <= ip && ip < cidr6_first(c) + pow2(
            (128 - c.prefix_len) as nat,
        )),
{
    let s: u128 = (128 - c.prefix_len) as u128;
    let d: int = pow2(s as nat) as int;
    let base = c.base;
    lemma_pow2_pos(s as nat);
    if s == 128 {
        assert(ip >> 128u128 == 0u128 && base >> 128u128 == 0u128) by (bit_vector);
        lemma2_to64();
        lemma_pow2_adds(64, 64);
        assert(d == 0x1_0000_0000_0000_0000 * 0x1_0000_0000_0000_0000);
        assert(base as int / d == 0) by (nonlinear_arith)
            requires
                d == 0x1_0000_0000_0000_0000_0000_0000_0000_0000,
                0 <= base < d,
        ;
    } else {
        lemma_u128_shr_is_div(ip, s);
        lemma_u128_shr_is_div(base, s);
        let q1 = ip as int / d;
        let q2 = base as int / d;
        lemma_fundamental_div_mod(ip as int, d);
        lemma_mod_bound(ip as int, d);
        let r = ip as int % d;
        assert((q1 == q2) <==> (q2 * d <= ip && ip < q2 * d + d)) by (nonlinear_arith)
            requires
                ip == d * q1 + r,
                0 <= r < d,
                d > 0,
        ;
    }
}

/// Network addresses of Zoom's published IPv4 server ranges, each next to
/// its published CIDR text. The published list repeats (almost) the same
/// set under its TCP and UDP sections; deduplicated here, since membership
/// is checked independently of port/protocol.
pub const ZOOM_IPV4_BASES: [u32; 49] = [
    0x03072300,  // 3.7.35.0/25
    0x03eb5200,  // 3.235.82.0/23
    0x03eb6000,  // 3.235.96.0/23
    0x0fdc5000,  // 15.220.80.0/24
    0x0fdc5100,  // 15.220.81.0/25
    0x12fe1780,  // 18.254.23.128/25
    0x12fe3d00,  // 18.254.61.0/25
    0x14cb9e50,  // 20.203.158.80/28
    0x14cbbec0,  // 20.203.190.192/26
    0x343d6480,  // 52.61.100.128/25
    0x40d39000,  // 64.211.144.0/24
    0x40e02000,  // 64.224.32.0/19
    0x45ae6c00,  // 69.174.108.0/22
    0x6524a700,  // 101.36.167.0/24
    0x6524aa00,  // 101.36.170.0/23
    0x677aa600,  // 103.122.166.0/23
    0x6f217300,  // 111.33.115.0/25
    0x6f21b500,  // 111.33.181.0/25
    0x736e9ac0,  // 115.110.154.192/26
    0x737238c0,  // 115.114.56.192/26
    0x73727300,  // 115.114.115.0/26
    0x73728300,  // 115.114.131.0/26
    0x79f49200,  // 121.244.146.0/27
    0x86e00000,  // 134.224.0.0/16
    0x89428000,  // 137.66.128.0/17
    0x90c30000,  // 144.195.0.0/16
    0x937c6000,  // 147.124.96.0/19
    0x95890000,  // 149.137.0.0/17
    0x9c2d0000,  // 156.45.0.0/17
    0x9f7c0000,  // 159.124.0.0/16
    0xa0013880,  // 160.1.56.128/25
    0xa1c78800,  // 161.199.136.0/22
    0xa20ce800,  // 162.12.232.0/22
    0xa2ff2400,  // 162.255.36.0/22
    0xa66c4000,  // 166.108.64.0/18
    0xa88c0000,  // 168.140.0.0/17
    0xaa720000,  // 170.114.0.0/16
    0xade75000,  // 173.231.80.0/20
    0xc0cc0c00,  // 192.204.12.0/23
    0xc6fb8000,  // 198.251.128.0/17
    0xcbc8db80,  // 203.200.219.128/27
    0xcc506800,  // 204.80.104.0/21
    0xcef70000,  // 206.247.0.0/16
    0xdd7a3f00,  // 221.122.63.0/24
    0xdd7a4000,  // 221.122.64.0/24
    0xdd7a5840,  // 221.122.88.64/27
    0xdd7a5880,  // 221.122.88.128/25
    0xdd7a5980,  // 221.122.89.128/25
    0xdd7b8bc0,  // 221.123.139.192/27
];

/// Prefix lengths of the same ranges, in the same order.
pub const ZOOM_IPV4_PREFIX_LENS: [u8; 49] = [
    25, 23, 23, 24, 25, 25, 25, 28, 26, 25,
    24, 19, 22, 24, 23, 23, 25, 25, 26, 26,
    26, 26, 27, 16, 17, 16, 19, 17, 17, 16,
    25, 22, 22, 22, 18, 17, 16, 20, 23, 17,
    27, 21, 16, 24, 24, 27, 25, 25, 27,
];

/// Network addresses of Zoom's published IPv6 server ranges.
pub const ZOOM_IPV6_BASES: [u128; 3] = [
    0x240730c0_00000000_00000000_00000000,  // 2407:30c0::/32
    0x26009000_26000000_00000000_00000000,  // 2600:9000:2600::/48
    0x26200123_20000000_00000000_00000000,  // 2620:123:2000::/40
];

/// Prefix lengths of the same ranges, in the same order.
pub const ZOOM_IPV6_PREFIX_LENS: [u8; 3] = [
    32, 48, 40,
];

/// The `i`-th published IPv4 range.
pub open spec fn zoom_ipv4_cidr(i: int) -> Cidr4 {
    Cidr4 { base: ZOOM_IPV4_BASES@[i], prefix_len: ZOOM_IPV4_PREFIX_LENS@[i] }
}

/// The `i`-th published IPv6 range.
pub open spec fn zoom_ipv6_cidr(i: int) -> Cidr6 {
    Cidr6 { base: ZOOM_IPV6_BASES@[i], prefix_len: ZOOM_IPV6_PREFIX_LENS@[i] }
}

/// `ip` lies in one of the published IPv4 ranges.
pub open spec fn is_zoom_ipv4(ip: u32) -> bool {
    exists|i: int| 0 <= i < 49 && cidr4_contains(#[trigger] zoom_ipv4_cidr(i), ip)
}

/// `ip` lies in one of the published IPv6 ranges.
pub open spec fn is_zoom_ipv6(ip: u128) -> bool {
    exists|i: int| 0 <= i < 3 && cidr6_contains(#[trigger] zoom_ipv6_cidr(i), ip)
}

/// Whether the IPv4 address with octets `ip` (most significant first) is
/// a published Zoom server address.
pub fn is_known_zoom_server_ipv4(ip: [u8; 4]) -> (r: bool)
    ensures
        r == is_zoom_ipv4(be_u32(ip@[0], ip@[1], ip@[2], ip@[3])),
{
    let ip_u32 = crate::common::headers::u32_from_be(ip[0], ip[1], ip[2], ip[3]);
    let mut i: usize = 0;
    while i < ZOOM_IPV4_BASES.len()
        invariant
            0 <= i <= ZOOM_IPV4_BASES@.len(),
            ZOOM_IPV4_BASES@.len() == ZOOM_IPV4_PREFIX_LENS@.len(),
            forall|j: int| 0 <= j < ZOOM_IPV4_PREFIX_LENS@.len() ==> #[trigger] ZOOM_IPV4_PREFIX_LENS@[j] <= 32,
            ip_u32 == be_u32(ip@[0], ip@[1], ip@[2], ip@[3]),
            forall|j: int| 0 <= j < i ==> !cidr4_contains(#[trigger] zoom_ipv4_cidr(j), ip_u32),
        decreases ZOOM_IPV4_BASES@.len() - i,
    {
        let c = Cidr4 { base: ZOOM_IPV4_BASES[i], prefix_len: ZOOM_IPV4_PREFIX_LENS[i] };
        if c.contains(ip_u32) {
            assert(cidr4_contains(zoom_ipv4_cidr(i as int), ip_u32));
            return true;
        }
        i += 1;
    }
    false
}

/// Whether the IPv6 address `ip` (its 128-bit value, first group most
/// significant) is a published Zoom server address.
pub fn is_known_zoom_server_ipv6(ip: u128) -> (r: bool)
    ensures
        r == is_zoom_ipv6(ip),
{
    let mut i: usize = 0;
    while i < ZOOM_IPV6_BASES.len()
        invariant
            0 <= i <= ZOOM_IPV6_BASES@.len(),
            ZOOM_IPV6_BASES@.len() == ZOOM_IPV6_PREFIX_LENS@.len(),
            forall|j: int| 0 <= j < ZOOM_IPV6_PREFIX_LENS@.len() ==> #[trigger] ZOOM_IPV6_PREFIX_LENS@[j] <= 128,
            forall|j: int| 0 <= j < i ==> !cidr6_contains(#[trigger] zoom_ipv6_cidr(j), ip),
        decreases ZOOM_IPV6_BASES@.len() - i,
    {
        let c = Cidr6 { base: ZOOM_IPV6_BASES[i], prefix_len: ZOOM_IPV6_PREFIX_LENS[i] };
        if c.contains(ip) {
            assert(cidr6_contains(zoom_ipv6_cidr(i as int), ip));
            return true;
        }
        i += 1;
    }
    false
}

/// An IP address as the filter reads it: the four octets of an IPv4
/// address (most significant first), or the 128-bit value of an IPv6
/// address (first group most significant).
#[derive(Debug, Clone, Copy)]
pub enum IpAddress {
    V4([u8; 4]),
    V6(u128),
}

/// `ip` is an address and lies in one of the published ranges of its family.
pub open spec fn is_zoom_ip(ip: Option<IpAddress>) -> bool {
    match ip {
        Some(IpAddress::V4(o)) => is_zoom_ipv4(be_u32(o@[0], o@[1], o@[2], o@[3])),
        Some(IpAddress::V6(v)) => is_zoom_ipv6(v),
        None => false,
    }
}

/// Whether an endpoint is a published Zoom server. `None` stands for an
/// endpoint whose text is not an IP address at all: that reads as "not a
/// known Zoom endpoint", never as an error.
pub fn is_known_zoom_server_ip(ip: Option<IpAddress>) -> (r: bool)
    ensures
        r == is_zoom_ip(ip),
{
    match ip {
        Some(IpAddress::V4(o)) => is_known_zoom_server_ipv4(o),
        Some(IpAddress::V6(v)) => is_known_zoom_server_ipv6(v),
        None => false,
    }
}

// ---------------------------------------------------------------------------
// Reading the published CIDR text ("a.b.c.d/len").

/// The position of the first `c` in `t`, if any.
pub open spec fn find_byte(t: Seq<u8>, c: u8) -> Option<nat>
    decreases t.len(),
{
    if t.len() == 0 {
        None
    } else if t[0] == c {
        Some(0)
    } else {
        match find_byte(t.skip(1), c) {
            Some(i) => Some(i + 1),
            None => None,
        }
    }
}

/// `find_byte` finds the first occurrence, and only when there is one.
pub proof fn lemma_find_byte(t: Seq<u8>, c: u8)
    ensures
        find_byte(t, c) matches Some(i) ==> i < t.len() && t[i as int] == c && forall|j: int|
            0 <= j < i ==> t[j] != c,
        find_byte(t, c) is None ==> forall|j: int| 0 <= j < t.len() ==> t[j] != c,
    decreases t.len(),
{
    if t.len() > 0 {
        lemma_find_byte(t.skip(1), c);
        if t[0] != c {
            assert forall|j: int| 1 <= j < t.len() implies t[j] == t.skip(1)[j - 1] by {}
        }
    }
}

/// The first occurrence of `c` is at `i`: `find_byte` says so.
proof fn lemma_find_byte_at(t: Seq<u8>, c: u8, i: int)
    requires
        0 <= i < t.len(),
        t[i] == c,
        forall|j: int| 0 <= j < i ==> t[j] != c,
    ensures
        find_byte(t, c) == Some(i as nat),
    decreases t.len(),
{
    if i > 0 {
        assert forall|j: int| 0 <= j < i - 1 implies t.skip(1)[j] != c by {
            assert(t.skip(1)[j] == t[j + 1]);
        }
        lemma_find_byte_at(t.skip(1), c, i - 1);
    }
}

/// No `c` in `t`: `find_byte` says so.
proof fn lemma_find_byte_none(t: Seq<u8>, c: u8)
    requires
        forall|j: int| 0 <= j < t.len() ==> t[j] != c,
    ensures
        find_byte(t, c) is None,
    decreases t.len(),
{
    if t.len() > 0 {
        assert forall|j: int| 0 <= j < t.len() - 1 implies t.skip(1)[j] != c by {
            assert(t.skip(1)[j] == t[j + 1]);
        }
        lemma_find_byte_none(t.skip(1), c);
    }
}

/// The pieces of `t` between occurrences of `c` (as `str::split` gives
/// them): always at least one piece, possibly empty ones.
pub open spec fn split_bytes(t: Seq<u8>, c: u8) -> Seq<Seq<u8>>
    decreases t.len(),
{
    match find_byte(t, c) {
        None => seq![t],
        Some(i) => {
            proof {
                lemma_find_byte(t, c);
            }
            seq![t.take(i as int)] + split_bytes(t.skip(i + 1 as int), c)
        },
    }
}

/// An ASCII decimal digit.
pub open spec fn is_digit(b: u8) -> bool {
    48 <= b <= 57
}

/// The value of a run of decimal digits, most significant first.
pub open spec fn digits_value(d: Seq<u8>) -> nat
    decreases d.len(),
{
    if d.len() == 0 {
        0
    } else {
        digits_value(d.drop_last()) * 10 + (d.last() - 48) as nat
    }
}

/// `t` without its leading `+`, if it has one.
pub open spec fn unsigned_digits(t: Seq<u8>) -> Seq<u8> {
    if t.len() > 0 && t[0] == 43 {
        t.skip(1)
    } else {
        t
    }
}

/// Every byte of `d` is a decimal digit.
pub open spec fn all_digits(d: Seq<u8>) -> bool {
    forall|i: int| 0 <= i < d.len() ==> is_digit(#[trigger] d[i])
}

/// What `str::parse::<u8>` makes of `t`: an optional `+`, then at least one
/// decimal digit and nothing else, with a value of at most 255.
pub open spec fn u8_text_value(t: Seq<u8>) -> Option<u8> {
    let d = unsigned_digits(t);
    if d.len() > 0 && all_digits(d) && digits_value(d) <= 255 {
        Some(digits_value(d) as u8)
    } else {
        None
    }
}

/// The block written `a.b.c.d/len`: the text up to the first `/` splits on
/// `.` into exactly four octets, and each octet and the text after the `/`
/// read as a `u8`.
pub open spec fn cidr4_text_value(t: Seq<u8>) -> Option<Cidr4> {
    match find_byte(t, 47) {
        None => None,
        Some(i) => {
            let parts = split_bytes(t.take(i as int), 46);
            let len = u8_text_value(t.skip(i + 1 as int));
            if parts.len() == 4 && u8_text_value(parts[0]) is Some && u8_text_value(parts[1]) is Some
                && u8_text_value(parts[2]) is Some && u8_text_value(parts[3]) is Some
                && len is Some {
                Some(
                    Cidr4 {
                        base: be_u32(
                            u8_text_value(parts[0]).unwrap(),
                            u8_text_value(parts[1]).unwrap(),
                            u8_text_value(parts[2]).unwrap(),
                            u8_text_value(parts[3]).unwrap(),
                        ),
                        prefix_len: len.unwrap(),
                    },
                )
            } else {
                None
            }
        },
    }
}

/// Adding digits never lowers the value of a run of digits.
proof fn lemma_digits_value_grows(d: Seq<u8>, n: int)
    requires
        0 <= n <= d.len(),
        all_digits(d),
    ensures
        digits_value(d.take(n)) <= digits_value(d),
    decreases d.len() - n,
{
    if n < d.len() {
        lemma_digits_value_grows(d, n + 1);
        assert(d.take(n + 1).drop_last() =~= d.take(n));
    } else {
        assert(d.take(n) =~= d);
    }
}

/// The first position at or after `from` (and before `to`) that holds `c`.
fn find_from(t: &[u8], from: usize, to: usize, c: u8) -> (r: Option<usize>)
    requires
        from <= to <= t@.len(),
    ensures
        r matches Some(j) ==> from <= j < to && find_byte(t@.subrange(from as int, to as int), c)
            == Some((j - from) as nat),
        r is None ==> find_byte(t@.subrange(from as int, to as int), c) is None,
{
    let ghost s = t@.subrange(from as int, to as int);
    let mut j = from;
    while j < to
        invariant
            from <= j <= to <= t@.len(),
            s == t@.subrange(from as int, to as int),
            forall|k: int| from <= k < j ==> t@[k] != c,
        decreases to - j,
    {
        if t[j] == c {
            proof {
                lemma_find_byte_at(s, c, j - from);
            }
            return Some(j);
        }
        j += 1;
    }
    proof {
        lemma_find_byte_none(s, c);
    }
    None
}

/// Read `t[from..to]` as `str::parse::<u8>` would.
fn parse_u8_text(t: &[u8], from: usize, to: usize) -> (r: Option<u8>)
    requires
        from <= to <= t@.len(),
    ensures
        r == u8_text_value(t@.subrange(from as int, to as int)),
{
    let ghost s = t@.subrange(from as int, to as int);
    let mut i = from;
    if i < to && t[i] == 43 {
        i += 1;
    }
    let ghost d = t@.subrange(i as int, to as int);
    assert(d == unsigned_digits(s));
    if i == to {
        return None;
    }
    let start = i;
    let mut acc: u16 = 0;
    while i < to
        invariant
            from <= start <= i <= to <= t@.len(),
            d == t@.subrange(start as int, to as int),
            s == t@.subrange(from as int, to as int),
            d == unsigned_digits(s),
            d.len() > 0,
            acc as nat == digits_value(t@.subrange(start as int, i as int)),
            acc <= 255,
            forall|k: int| start <= k < i ==> is_digit(#[trigger] t@[k]),
        decreases to - i,
    {
        let b = t[i];
        if b < 48 || b > 57 {
            assert(d[i - start] == t@[i as int]);
            assert(!all_digits(d));
            return None;
        }
        assert(t@.subrange(start as int, i + 1).drop_last() =~= t@.subrange(start as int, i as int));
        let v = acc * 10 + (b - 48) as u16;
        if v > 255 {
            proof {
                if all_digits(d) {
                    assert(d.take(i + 1 - start) =~= t@.subrange(start as int, i + 1));
                    lemma_digits_value_grows(d, i + 1 - start);
                }
            }
            return None;
        }
        acc = v;
        i += 1;
    }
    assert(d =~= t@.subrange(start as int, i as int));
    Some(acc as u8)
}

/// Read CIDR text `a.b.c.d/len`; `None` where `str`'s own splitting and
/// `u8` parsing would fail.
fn cidr4_from_text(t: &[u8]) -> (r: Option<Cidr4>)
    ensures
        r == cidr4_text_value(t@),
{
    let n = t.len();
    assert(t@.subrange(0, n as int) =~= t@);
    let slash = match find_from(t, 0, n, 47) {
        Some(j) => j,
        None => return None,
    };
    let ghost addr = t@.take(slash as int);
    let ghost parts = split_bytes(addr, 46);
    assert(addr.skip(0) =~= addr);
    // The first three octets end at a dot each.
    let mut octets: [u8; 4] = [0; 4];
    let mut pos: usize = 0;
    let mut k: usize = 0;
    let ghost mut seen: Seq<Seq<u8>> = Seq::empty();
    while k < 3
        invariant
            slash < n == t@.len(),
            find_byte(t@, 47) == Some(slash as nat),
            addr == t@.take(slash as int),
            parts == split_bytes(addr, 46),
            0 <= k <= 3,
            pos <= slash,
            seen.len() == k,
            parts == seen + split_bytes(addr.skip(pos as int), 46),
            forall|m: int| 0 <= m < k ==> u8_text_value(#[trigger] seen[m]) == Some(octets@[m]),
        decreases 3 - k,
    {
        assert(addr.skip(pos as int) =~= t@.subrange(pos as int, slash as int));
        let dot = match find_from(t, pos, slash, 46) {
            Some(j) => j,
            None => {
                proof {
                    let rest = addr.skip(pos as int);
                    assert(split_bytes(rest, 46) == seq![rest]);
                    assert(parts.len() == k + 1);
                }
                return None;
            },
        };
        let ghost rest = addr.skip(pos as int);
        let ghost piece = rest.take(dot - pos);
        assert(split_bytes(rest, 46) == seq![piece] + split_bytes(rest.skip(dot - pos + 1), 46));
        assert(rest.skip(dot - pos + 1) =~= addr.skip(dot + 1));
        assert(piece =~= t@.subrange(pos as int, dot as int));
        let o = match parse_u8_text(t, pos, dot) {
            Some(o) => o,
            None => {
                proof {
                    assert((seen + split_bytes(rest, 46))[k as int] == piece);
                }
                return None;
            },
        };
        octets[k] = o;
        proof {
            assert((seen.push(piece) + split_bytes(addr.skip(dot + 1), 46)) =~= (seen + split_bytes(
                rest,
                46,
            )));
            seen = seen.push(piece);
        }
        pos = dot + 1;
        k += 1;
    }
    // The fourth octet runs to the slash and holds no further dot.
    let ghost last = addr.skip(pos as int);
    assert(last =~= t@.subrange(pos as int, slash as int));
    if let Some(_) = find_from(t, pos, slash, 46) {
        proof {
            lemma_split_bytes_len(last, 46);
        }
        return None;
    }
    assert(split_bytes(last, 46) == seq![last]);
    assert(parts =~= seen.push(last));
    let o3 = match parse_u8_text(t, pos, slash) {
        Some(o) => o,
        None => return None,
    };
    assert(t@.skip(slash + 1) =~= t@.subrange(slash + 1, n as int));
    let len = match parse_u8_text(t, slash + 1, n) {
        Some(l) => l,
        None => return None,
    };
    let base = crate::common::headers::u32_from_be(octets[0], octets[1], octets[2], o3);
    Some(Cidr4 { base, prefix_len: len })
}

/// A text with a `c` in it splits into at least two pieces.
proof fn lemma_split_bytes_len(t: Seq<u8>, c: u8)
    ensures
        split_bytes(t, c).len() >= 1,
        find_byte(t, c) is Some ==> split_bytes(t, c).len() >= 2,
    decreases t.len(),
{
    lemma_find_byte(t, c);
    if let Some(i) = find_byte(t, c) {
        lemma_split_bytes_len(t.skip(i + 1 as int), c);
    }
}

/// Parse one published IPv4 CIDR block, `a.b.c.d/len`. The text must be
/// well formed (the published list is a constant of this crate): exactly
/// four dot-separated octets before the first `/`, and a `u8` after it.
pub fn parse_cidr4(s: &str) -> (r: Cidr4)
    requires
        cidr4_text_value(s.spec_bytes()) is Some,
    ensures
        cidr4_text_value(s.spec_bytes()) == Some(r),
{
    let bytes = s.as_bytes();
    match cidr4_from_text(bytes) {
        Some(c) => c,
        None => {
            assert(false);
            Cidr4 { base: 0, prefix_len: 0 }
        },
    }
}

} // verus!

//! Addresses of the 32-bit and 128-bit families and the ranges that a
//! prefix length cuts out of them.

pub mod error;
pub mod format;
pub mod parse;

use vstd::arithmetic::div_mod::lemma_fundamental_div_mod_converse;
use vstd::arithmetic::mul::lemma_mul_is_distributive_sub_other_way;
use vstd::arithmetic::power2::{
    lemma2_to64, lemma_pow2_adds, lemma_pow2_pos, lemma_pow2_strictly_increases, pow2,
};
use vstd::bits::{lemma_u128_shr_is_div, lemma_u32_shr_is_div};
use vstd::prelude::*;

use crate::net::format::{ipv4_text, ipv6_text, push_ipv4, push_ipv6};
use crate::text::{decimal, push_decimal, push_str};

verus! {

/// An address of either family.
#[derive(Clone, Copy, Debug, PartialEq, Eq, Structural)]
pub enum IpAddr {
    V4(u32),
    V6(u128),
}

/// The host part of a 32-bit prefix: its `32 - cidr` low bits set.
pub open spec fn v4_mask(cidr: u8) -> u32 {
    (pow2((32 - cidr) as nat) - 1) as u32
}

/// How many addresses a 32-bit prefix of length `cidr` covers.
pub open spec fn v4_available(cidr: u8) -> nat {
    pow2((32 - cidr) as nat)
}

/// The first address of the 32-bit range around `addr`.
pub open spec fn v4_start(addr: u32, cidr: u8) -> u32 {
    addr & !v4_mask(cidr)
}

/// The last address of the 32-bit range around `addr`.
pub open spec fn v4_finish(addr: u32, cidr: u8) -> u32 {
    v4_start(addr, cidr) | v4_mask(cidr)
}

/// The host part of a 128-bit prefix: its `128 - cidr` low bits set.
pub open spec fn v6_mask(cidr: u8) -> u128 {
    (pow2((128 - cidr) as nat) - 1) as u128
}

/// How many addresses a 128-bit prefix of length `cidr` covers.
pub open spec fn v6_available(cidr: u8) -> nat {
    pow2((128 - cidr) as nat)
}

/// The first address of the 128-bit range around `addr`.
pub open spec fn v6_start(addr: u128, cidr: u8) -> u128 {
    addr & !v6_mask(cidr)
}

/// The last address of the 128-bit range around `addr`.
pub open spec fn v6_finish(addr: u128, cidr: u8) -> u128 {
    v6_start(addr, cidr) | v6_mask(cidr)
}

/// The value of the 32-bit address with octets `a.b.c.d`.
pub open spec fn v4_from_octets(a: u8, b: u8, c: u8, d: u8) -> nat {
    ((a as nat * 256 + b as nat) * 256 + c as nat) * 256 + d as nat
}

/// The value of the 128-bit address with 16-bit segments `a:b:c:d:e:f:g:h`.
pub open spec fn v6_from_segments(
    a: u16,
    b: u16,
    c: u16,
    d: u16,
    e: u16,
    f: u16,
    g: u16,
    h: u16,
) -> nat {
    let hi = ((a as nat * 65536 + b as nat) * 65536 + c as nat) * 65536 + d as nat;
    let lo = ((e as nat * 65536 + f as nat) * 65536 + g as nat) * 65536 + h as nat;
    hi * 0x1_0000_0000_0000_0000 + lo
}

pub(crate) proof fn lemma_pow2_minus_one_div(n: nat, c: nat)
    requires
        c <= n,
    ensures
        (pow2(n) - 1) / (pow2(c) as int) == pow2((n - c) as nat) - 1,
{
    let k = (n - c) as nat;
    lemma_pow2_adds(k, c);
    lemma_pow2_pos(k);
    lemma_pow2_pos(c);
    let d = pow2(c) as int;
    let q = pow2(k) - 1;
    lemma_mul_is_distributive_sub_other_way(d, pow2(k) as int, 1);
    assert(q * d == pow2(k) * pow2(c) - d);
    lemma_fundamental_div_mod_converse(pow2(n) - 1, d, q, d - 1);
}

pub(crate) proof fn lemma_pow2_32()
    ensures
        pow2(32) == 0x1_0000_0000,
{
    lemma2_to64();
}

pub(crate) proof fn lemma_pow2_128()
    ensures
        pow2(128) == 0x1_0000_0000_0000_0000_0000_0000_0000_0000,
{
    lemma2_to64();
    lemma_pow2_adds(64, 64);
}

/// The host mask of a 32-bit prefix in the form the code computes it.
proof fn lemma_v4_mask(cidr: u8)
    requires
        1 <= cidr <= 32,
    ensures
        cidr < 32 ==> v4_mask(cidr) == u32::MAX >> (cidr as u32),
        cidr == 32 ==> v4_mask(cidr) == 0,
        v4_mask(cidr) as nat + 1 == v4_available(cidr),
        v4_available(cidr) < 0x1_0000_0000,
{
    lemma2_to64();
    lemma_pow2_strictly_increases((32 - cidr) as nat, 32);
    lemma_pow2_32();
    lemma_pow2_pos((32 - cidr) as nat);
    lemma_pow2_minus_one_div(32, cidr as nat);
    lemma_pow2_minus_one_div(32, 0);
    if cidr < 32 {
        lemma_u32_shr_is_div(u32::MAX, cidr as u32);
    }
}

/// The host mask of a 128-bit prefix in the form the code computes it.
proof fn lemma_v6_mask(cidr: u8)
    requires
        1 <= cidr <= 128,
    ensures
        cidr < 128 ==> v6_mask(cidr) == u128::MAX >> (cidr as u128),
        cidr == 128 ==> v6_mask(cidr) == 0,
        v6_mask(cidr) as nat + 1 == v6_available(cidr),
        v6_available(cidr) < 0x1_0000_0000_0000_0000_0000_0000_0000_0000,
{
    lemma2_to64();
    lemma_pow2_strictly_increases((128 - cidr) as nat, 128);
    lemma_pow2_128();
    lemma_pow2_pos((128 - cidr) as nat);
    lemma_pow2_minus_one_div(128, cidr as nat);
    lemma_pow2_minus_one_div(128, 0);
    if cidr < 128 {
        lemma_u128_shr_is_div(u128::MAX, cidr as u128);
    }
}

/// The range of a 32-bit prefix holds the address it was built from,
/// and holds exactly as many addresses as the prefix length leaves free.
pub proof fn lemma_v4_range(addr: u32, cidr: u8)
    requires
        1 <= cidr <= 32,
    ensures
        v4_start(addr, cidr) <= addr <= v4_finish(addr, cidr),
        v4_finish(addr, cidr) - v4_start(addr, cidr) + 1 == v4_available(cidr),
{
    lemma_v4_mask(cidr);
    let m = v4_mask(cidr);
    if cidr < 32 {
        let c = cidr as u32;
        assert((addr & !(u32::MAX >> c)) <= addr <= ((addr & !(u32::MAX >> c)) | (u32::MAX >> c))
            && ((addr & !(u32::MAX >> c)) | (u32::MAX >> c)) - (addr & !(u32::MAX >> c)) == (
        u32::MAX >> c)) by (bit_vector)
            requires
                c < 32,
        ;
    } else {
        assert((addr & !0u32) == addr && (addr | 0u32) == addr) by (bit_vector);
    }
}

/// The range of a 128-bit prefix holds the address it was built from,
/// and holds exactly as many addresses as the prefix length leaves free.
pub proof fn lemma_v6_range(addr: u128, cidr: u8)
    requires
        1 <= cidr <= 128,
    ensures
        v6_start(addr, cidr) <= addr <= v6_finish(addr, cidr),
        v6_finish(addr, cidr) - v6_start(addr, cidr) + 1 == v6_available(cidr),
{
    lemma_v6_mask(cidr);
    if cidr < 128 {
        let c = cidr as u128;
        assert((addr & !(u128::MAX >> c)) <= addr <= ((addr & !(u128::MAX >> c)) | (u128::MAX
            >> c)) && ((addr & !(u128::MAX >> c)) | (u128::MAX >> c)) - (addr & !(u128::MAX
            >> c)) == (u128::MAX >> c)) by (bit_vector)
            requires
                c < 128,
        ;
    } else {
        assert((addr & !0u128) == addr && (addr | 0u128) == addr) by (bit_vector);
    }
}

fn v4_host_mask(cidr: u8) -> (r: u32)
    requires
        1 <= cidr <= 32,
    ensures
        r == v4_mask(cidr),
{
    proof {
        lemma_v4_mask(cidr);
    }
    if cidr == 32 {
        0
    } else {
        u32::MAX >> (cidr as u32)
    }
}

fn v6_host_mask(cidr: u8) -> (r: u128)
    requires
        1 <= cidr <= 128,
    ensures
        r == v6_mask(cidr),
{
    proof {
        lemma_v6_mask(cidr);
    }
    if cidr == 128 {
        0
    } else {
        u128::MAX >> (cidr as u128)
    }
}

/// The number of addresses under a 32-bit prefix of length `classless`;
/// `None` where that length is 0 (the count would not fit) or beyond 32.
pub fn v4_cidr_calc(classless: u8) -> (r: Option<u32>)
    ensures
        1 <= classless <= 32 ==> r == Some(v4_available(classless) as u32) && v4_available(
            classless,
        ) <= u32::MAX,
        !(1 <= classless <= 32) ==> r is None,
{
    if classless == 0 || classless > 32 {
        None
    } else {
        proof {
            lemma_v4_mask(classless);
        }
        Some(v4_host_mask(classless) + 1)
    }
}

/// The number of addresses under a 128-bit prefix of length `classless`;
/// `None` where that length is 0 (the count would not fit) or beyond 128.
pub fn v6_cidr_calc(classless: u8) -> (r: Option<u128>)
    ensures
        1 <= classless <= 128 ==> r == Some(v6_available(classless) as u128) && v6_available(
            classless,
        ) <= u128::MAX,
        !(1 <= classless <= 128) ==> r is None,
{
    if classless == 0 || classless > 128 {
        None
    } else {
        proof {
            lemma_v6_mask(classless);
        }
        Some(v6_host_mask(classless) + 1)
    }
}

/// Whether `check` lies among the addresses that a 32-bit prefix of length
/// `cidr` covers from `start` on; `None` where the length is invalid.
pub fn v4_in_cidr_range(check: &u32, start: &u32, cidr: u8) -> (r: Option<bool>)
    ensures
        1 <= cidr <= 32 ==> r == Some(
            *start <= *check && *check < *start as nat + v4_available(cidr),
        ),
        !(1 <= cidr <= 32) ==> r is None,
{
    match v4_cidr_calc(cidr) {
        Some(avail) => Some(*check >= *start && *check - *start < avail),
        None => None,
    }
}

/// Whether `check` lies in `[start, end)`.
pub fn v4_in_addr_range(check: &u32, start: &u32, end: &u32) -> (r: bool)
    ensures
        r == (*start <= *check && *check < *end),
{
    *check < *end && *check >= *start
}

/// Whether `check` lies among the addresses that a 128-bit prefix of length
/// `cidr` covers from `start` on; `None` where the length is invalid.
pub fn v6_in_cidr_range(check: &u128, start: &u128, cidr: u8) -> (r: Option<bool>)
    ensures
        1 <= cidr <= 128 ==> r == Some(
            *start <= *check && *check < *start as nat + v6_available(cidr),
        ),
        !(1 <= cidr <= 128) ==> r is None,
{
    match v6_cidr_calc(cidr) {
        Some(avail) => Some(*check >= *start && *check - *start < avail),
        None => None,
    }
}

/// Whether `check` lies in `[start, end)`.
pub fn v6_in_addr_range(check: &u128, start: &u128, end: &u128) -> (r: bool)
    ensures
        r == (*start <= *check && *check < *end),
{
    *check < *end && *check >= *start
}

/// A 32-bit address together with a prefix length in `1..=32`.
pub struct Ipv4AddrCidr {
    addr: u32,
    cidr: u8,
}

impl Ipv4AddrCidr {
    #[verifier::type_invariant]
    spec fn inv(self) -> bool {
        1 <= self.cidr <= 32
    }

    /// The address as it was given.
    pub closed spec fn address(self) -> u32 {
        self.addr
    }

    /// The prefix length.
    pub closed spec fn prefix_len(self) -> u8 {
        self.cidr
    }

    /// Whether `cidr` is outside `1..=32`.
    pub fn check_cidr(cidr: &u8) -> (r: bool)
        ensures
            r == (*cidr == 0 || *cidr > 32),
    {
        *cidr == 0 || *cidr > 32
    }

    /// The address `a.b.c.d` with prefix length `cidr`; fails where `cidr`
    /// is outside `1..=32`.
    pub fn new(a: u8, b: u8, c: u8, d: u8, cidr: u8) -> (r: error::Result<Ipv4AddrCidr>)
        ensures
            (1 <= cidr <= 32) == r is Ok,
            r matches Ok(v) ==> v.address() == v4_from_octets(a, b, c, d) && v.prefix_len()
                == cidr,
            r matches Err(e) ==> e == error::Error::InvalidV4Cidr(cidr),
    {
        let addr: u32 = ((a as u32 * 256 + b as u32) * 256 + c as u32) * 256 + d as u32;
        Ipv4AddrCidr::from_addr(addr, cidr)
    }

    /// Pairs `addr` with `cidr`; fails where `cidr` is outside `1..=32`.
    pub fn from_addr(addr: u32, cidr: u8) -> (r: error::Result<Ipv4AddrCidr>)
        ensures
            (1 <= cidr <= 32) == r is Ok,
            r matches Ok(v) ==> v.address() == addr && v.prefix_len() == cidr,
            r matches Err(e) ==> e == error::Error::InvalidV4Cidr(cidr),
    {
        if Ipv4AddrCidr::check_cidr(&cidr) {
            Err(error::Error::InvalidV4Cidr(cidr))
        } else {
            Ok(Ipv4AddrCidr { addr, cidr })
        }
    }

    /// Replaces the address, keeping the prefix length.
    pub fn set_addr(&mut self, addr: u32)
        ensures
            final(self).address() == addr,
            final(self).prefix_len() == old(self).prefix_len(),
    {
        proof {
            use_type_invariant(&*self);
        }
        self.addr = addr;
    }

    pub fn addr_ref(&self) -> (r: &u32)
        ensures
            *r == self.address(),
    {
        &self.addr
    }

    pub fn addr_clone(&self) -> (r: u32)
        ensures
            r == self.address(),
    {
        self.addr
    }

    /// Replaces the prefix length where `cidr` is in `1..=32`; otherwise
    /// returns false and changes nothing.
    pub fn set_cidr(&mut self, cidr: u8) -> (r: bool)
        ensures
            r == (1 <= cidr <= 32),
            final(self).address() == old(self).address(),
            final(self).prefix_len() == (if r {
                cidr
            } else {
                old(self).prefix_len()
            }),
    {
        if Ipv4AddrCidr::check_cidr(&cidr) {
            false
        } else {
            self.cidr = cidr;
            true
        }
    }

    pub fn cidr_ref(&self) -> (r: &u8)
        ensures
            *r == self.prefix_len(),
            1 <= *r <= 32,
    {
        proof {
            use_type_invariant(self);
        }
        &self.cidr
    }

    pub fn cidr_clone(&self) -> (r: u8)
        ensures
            r == self.prefix_len(),
            1 <= r <= 32,
    {
        proof {
            use_type_invariant(self);
        }
        self.cidr
    }

    /// The host part of the range: the low `32 - prefix` bits set.
    pub fn cidr_mask(&self) -> (r: u32)
        ensures
            r == v4_mask(self.prefix_len()),
    {
        proof {
            use_type_invariant(self);
        }
        v4_host_mask(self.cidr)
    }

    /// How many addresses the range holds: `2^(32 - prefix)`.
    pub fn available_addresses(&self) -> (r: u32)
        ensures
            r == v4_available(self.prefix_len()),
    {
        proof {
            use_type_invariant(self);
            lemma_v4_mask(self.cidr);
        }
        v4_host_mask(self.cidr) + 1
    }

    pub fn as_u32(&self) -> (r: u32)
        ensures
            r == self.address(),
    {
        self.addr
    }

    /// The first address of the range.
    pub fn start_u32(&self) -> (r: u32)
        ensures
            r == v4_start(self.address(), self.prefix_len()),
    {
        proof {
            use_type_invariant(self);
        }
        self.addr & !v4_host_mask(self.cidr)
    }

    /// The first address of the range.
    pub fn start(&self) -> (r: u32)
        ensures
            r == v4_start(self.address(), self.prefix_len()),
    {
        self.start_u32()
    }

    /// The last address of the range.
    pub fn finish_u32(&self) -> (r: u32)
        ensures
            r == v4_finish(self.address(), self.prefix_len()),
    {
        proof {
            use_type_invariant(self);
        }
        let m = v4_host_mask(self.cidr);
        let a = self.addr;
        assert((a & !m) | m == a | m) by (bit_vector);
        a | m
    }

    /// The last address of the range.
    pub fn finish(&self) -> (r: u32)
        ensures
            r == v4_finish(self.address(), self.prefix_len()),
    {
        self.finish_u32()
    }

    /// Whether `check` lies in the range, both ends included.
    pub fn in_range(&self, check: &u32) -> (r: bool)
        ensures
            r == (v4_start(self.address(), self.prefix_len()) <= *check <= v4_finish(
                self.address(),
                self.prefix_len(),
            )),
    {
        let start = self.start_u32();
        let finish = self.finish_u32();
        *check >= start && *check <= finish
    }

    /// The range as text: its first address, `/`, and the prefix length.
    pub fn prefix(&self) -> (r: String)
        ensures
            r@ == ipv4_text(v4_start(self.address(), self.prefix_len())) + "/"@ + decimal(
                self.prefix_len() as nat,
            ),
    {
        let mut r = String::new();
        push_ipv4(&mut r, self.start_u32());
        proof {
            reveal_strlit("/");
        }
        push_str(&mut r, "/");
        push_decimal(&mut r, self.cidr as u128);
        r
    }
}

/// A 128-bit address together with a prefix length in `1..=128`.
pub struct Ipv6AddrCidr {
    addr: u128,
    cidr: u8,
}

impl Ipv6AddrCidr {
    #[verifier::type_invariant]
    spec fn inv(self) -> bool {
        1 <= self.cidr <= 128
    }

    /// The address as it was given.
    pub closed spec fn address(self) -> u128 {
        self.addr
    }

    /// The prefix length.
    pub closed spec fn prefix_len(self) -> u8 {
        self.cidr
    }

    /// Whether `cidr` is outside `1..=128`.
    pub fn check_cidr(cidr: &u8) -> (r: bool)
        ensures
            r == (*cidr == 0 || *cidr > 128),
    {
        *cidr == 0 || *cidr > 128
    }

    /// The address `a:b:c:d:e:f:g:h` with prefix length `cidr`; fails where
    /// `cidr` is outside `1..=128`.
    pub fn new(
        a: u16,
        b: u16,
        c: u16,
        d: u16,
        e: u16,
        f: u16,
        g: u16,
        h: u16,
        cidr: u8,
    ) -> (r: error::Result<Ipv6AddrCidr>)
        ensures
            (1 <= cidr <= 128) == r is Ok,
            r matches Ok(v) ==> v.address() == v6_from_segments(a, b, c, d, e, f, g, h)
                && v.prefix_len() == cidr,
            r matches Err(x) ==> x == error::Error::InvalidV6Cidr(cidr),
    {
        let hi: u64 = ((a as u64 * 65536 + b as u64) * 65536 + c as u64) * 65536 + d as u64;
        let lo: u64 = ((e as u64 * 65536 + f as u64) * 65536 + g as u64) * 65536 + h as u64;
        let addr: u128 = hi as u128 * 0x1_0000_0000_0000_0000 + lo as u128;
        Ipv6AddrCidr::from_addr(addr, cidr)
    }

    /// Pairs `addr` with `cidr`; fails where `cidr` is outside `1..=128`.
    pub fn from_addr(addr: u128, cidr: u8) -> (r: error::Result<Ipv6AddrCidr>)
        ensures
            (1 <= cidr <= 128) == r is Ok,
            r matches Ok(v) ==> v.address() == addr && v.prefix_len() == cidr,
            r matches Err(e) ==> e == error::Error::InvalidV6Cidr(cidr),
    {
        if Ipv6AddrCidr::check_cidr(&cidr) {
            Err(error::Error::InvalidV6Cidr(cidr))
        } else {
            Ok(Ipv6AddrCidr { addr, cidr })
        }
    }

    pub fn addr_ref(&self) -> (r: &u128)
        ensures
            *r == self.address(),
    {
        &self.addr
    }

    pub fn addr_clone(&self) -> (r: u128)
        ensures
            r == self.address(),
    {
        self.addr
    }

    /// Replaces the prefix length where `cidr` is in `1..=128`; otherwise
    /// returns false and changes nothing.
    pub fn set_cidr(&mut self, cidr: u8) -> (r: bool)
        ensures
            r == (1 <= cidr <= 128),
            final(self).address() == old(self).address(),
            final(self).prefix_len() == (if r {
                cidr
            } else {
                old(self).prefix_len()
            }),
    {
        if Ipv6AddrCidr::check_cidr(&cidr) {
            false
        } else {
            self.cidr = cidr;
            true
        }
    }

    pub fn cidr_ref(&self) -> (r: &u8)
        ensures
            *r == self.prefix_len(),
            1 <= *r <= 128,
    {
        proof {
            use_type_invariant(self);
        }
        &self.cidr
    }

    pub fn cidr_clone(&self) -> (r: u8)
        ensures
            r == self.prefix_len(),
            1 <= r <= 128,
    {
        proof {
            use_type_invariant(self);
        }
        self.cidr
    }

    /// The host part of the range: the low `128 - prefix` bits set.
    pub fn cidr_mask(&self) -> (r: u128)
        ensures
            r == v6_mask(self.prefix_len()),
    {
        proof {
            use_type_invariant(self);
        }
        v6_host_mask(self.cidr)
    }

    /// How many addresses the range holds: `2^(128 - prefix)`.
    pub fn available_addresses(&self) -> (r: u128)
        ensures
            r == v6_available(self.prefix_len()),
    {
        proof {
            use_type_invariant(self);
            lemma_v6_mask(self.cidr);
        }
        v6_host_mask(self.cidr) + 1
    }

    pub fn as_u128(&self) -> (r: u128)
        ensures
            r == self.address(),
    {
        self.addr
    }

    /// The first address of the range.
    pub fn start_u128(&self) -> (r: u128)
        ensures
            r == v6_start(self.address(), self.prefix_len()),
    {
        proof {
            use_type_invariant(self);
        }
        self.addr & !v6_host_mask(self.cidr)
    }

    /// The first address of the range.
    pub fn start(&self) -> (r: u128)
        ensures
            r == v6_start(self.address(), self.prefix_len()),
    {
        self.start_u128()
    }

    /// The last address of the range.
    pub fn finish_u128(&self) -> (r: u128)
        ensures
            r == v6_finish(self.address(), self.prefix_len()),
    {
        proof {
            use_type_invariant(self);
        }
        let m = v6_host_mask(self.cidr);
        let a = self.addr;
        assert((a & !m) | m == a | m) by (bit_vector);
        a | m
    }

    /// The last address of the range.
    pub fn finish(&self) -> (r: u128)
        ensures
            r == v6_finish(self.address(), self.prefix_len()),
    {
        self.finish_u128()
    }

    /// Whether `check` lies in the range, both ends included.
    pub fn in_range(&self, check: &u128) -> (r: bool)
        ensures
            r == (v6_start(self.address(), self.prefix_len()) <= *check <= v6_finish(
                self.address(),
                self.prefix_len(),
            )),
    {
        let start = self.start_u128();
        let finish = self.finish_u128();
        *check >= start && *check <= finish
    }

    /// The range as text: its first address, `/`, and the prefix length.
    pub fn prefix(&self) -> (r: String)
        ensures
            r@ == ipv6_text(v6_start(self.address(), self.prefix_len())) + "/"@ + decimal(
                self.prefix_len() as nat,
            ),
    {
        let mut r = String::new();
        push_ipv6(&mut r, self.start_u128());
        proof {
            reveal_strlit("/");
        }
        push_str(&mut r, "/");
        push_decimal(&mut r, self.cidr as u128);
        r
    }
}

} // verus!

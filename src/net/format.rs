//! Textual forms of addresses: dotted decimal for the 32-bit family, and the
//! compressed hexadecimal form of RFC 5952 for the 128-bit family.

use vstd::prelude::*;

use crate::text::{decimal, hexadecimal, push_char, push_decimal, push_hex, push_str};

verus! {

/// The `n` lowest digits of `a` in base `base`, most significant first.
pub open spec fn digits(a: nat, base: nat, n: nat) -> Seq<nat>
    decreases n,
{
    if n == 0 || base == 0 {
        seq![]
    } else {
        digits(a / base, base, (n - 1) as nat).push(a % base)
    }
}

/// The four octets of a 32-bit address, most significant first.
pub open spec fn v4_octets(a: u32) -> Seq<nat> {
    digits(a as nat, 256, 4)
}

/// The eight 16-bit segments of a 128-bit address, most significant first.
pub open spec fn v6_segments(a: u128) -> Seq<nat> {
    digits(a as nat, 65536, 8)
}

/// The 32 nibbles of a 128-bit address, most significant first.
pub open spec fn v6_nibbles(a: u128) -> Seq<nat> {
    digits(a as nat, 16, 32)
}

/// Dotted decimal text of a 32-bit address.
pub open spec fn ipv4_text(a: u32) -> Seq<char> {
    let o = v4_octets(a);
    decimal(o[0]) + "."@ + decimal(o[1]) + "."@ + decimal(o[2]) + "."@ + decimal(o[3])
}

/// The numbers of `s`, in hexadecimal, separated by `:`.
pub open spec fn hex_groups(s: Seq<nat>) -> Seq<char>
    decreases s.len(),
{
    if s.len() == 0 {
        seq![]
    } else if s.len() == 1 {
        hexadecimal(s[0])
    } else {
        hex_groups(s.drop_last()) + ":"@ + hexadecimal(s.last())
    }
}

/// How many zeros follow in `s` from position `i` on.
pub open spec fn zero_run(s: Seq<nat>, i: int) -> nat
    decreases s.len() - i,
{
    if i < 0 || i >= s.len() || s[i] != 0 {
        0
    } else {
        1 + zero_run(s, i + 1)
    }
}

/// Start and length of the first longest run of zeros that starts at `i`
/// or later; `(s.len(), 0)` where there is none.
pub open spec fn longest_zero_run(s: Seq<nat>, i: int) -> (int, nat)
    decreases s.len() - i,
{
    if i < 0 || i >= s.len() {
        (s.len() as int, 0)
    } else {
        let rest = longest_zero_run(s, i + 1);
        let here = zero_run(s, i);
        if here > 0 && here >= rest.1 {
            (i, here)
        } else {
            rest
        }
    }
}

/// Whether the 128-bit address is an IPv4-mapped one (`::ffff:a.b.c.d`).
pub open spec fn is_v4_mapped(a: u128) -> bool {
    let s = v6_segments(a);
    s[0] == 0 && s[1] == 0 && s[2] == 0 && s[3] == 0 && s[4] == 0 && s[5] == 0xffff
}

/// Text of a 128-bit address: an IPv4-mapped one as `::ffff:` and dotted
/// decimal; otherwise lower-case hexadecimal segments, with the first
/// longest run of two or more zero segments written as `::`.
pub open spec fn ipv6_text(a: u128) -> Seq<char> {
    let s = v6_segments(a);
    let (start, len) = longest_zero_run(s, 0);
    if is_v4_mapped(a) {
        "::ffff:"@ + ipv4_text((a % 0x1_0000_0000) as u32)
    } else if len > 1 {
        hex_groups(s.subrange(0, start)) + "::"@ + hex_groups(s.subrange(start + len, 8))
    } else {
        hex_groups(s)
    }
}

/// The `n` lowest digits of `a` in base `base`, most significant first.
pub fn digits_of(a: u128, base: u128, n: usize) -> (r: Vec<u128>)
    requires
        base >= 2,
    ensures
        r@.len() == n,
        forall|i: int| 0 <= i < n ==> r@[i] as nat == #[trigger] digits(a as nat, base as nat, n as nat)[i],
        forall|i: int| 0 <= i < n ==> r@[i] < base,
    decreases n,
{
    if n == 0 {
        Vec::new()
    } else {
        let mut v = digits_of(a / base, base, n - 1);
        v.push(a % base);
        proof {
            let d = digits(a as nat, base as nat, n as nat);
            let p = digits((a / base) as nat, base as nat, (n - 1) as nat);
            lemma_digits_len((a / base) as nat, base as nat, (n - 1) as nat);
            assert(d == p.push((a % base) as nat));
            assert forall|i: int| 0 <= i < n implies v@[i] as nat == #[trigger] d[i] by {
                if i < n - 1 {
                    assert(d[i] == p[i]);
                }
            }
        }
        v
    }
}

/// `digits` gives as many digits as asked for.
pub proof fn lemma_digits_len(a: nat, base: nat, n: nat)
    requires
        base >= 2,
    ensures
        digits(a, base, n).len() == n,
    decreases n,
{
    if n > 0 {
        lemma_digits_len(a / base, base, (n - 1) as nat);
    }
}

/// Appends the dotted decimal text of a 32-bit address.
pub fn push_ipv4(s: &mut String, a: u32)
    ensures
        final(s)@ == old(s)@ + ipv4_text(a),
{
    let o = digits_of(a as u128, 256, 4);
    proof {
        lemma_digits_len(a as nat, 256, 4);
    }
    push_decimal(s, o[0]);
    push_char(s, '.');
    push_decimal(s, o[1]);
    push_char(s, '.');
    push_decimal(s, o[2]);
    push_char(s, '.');
    push_decimal(s, o[3]);
    proof {
        reveal_strlit(".");
        assert(o@[0] as nat == v4_octets(a)[0]);
        assert(o@[1] as nat == v4_octets(a)[1]);
        assert(o@[2] as nat == v4_octets(a)[2]);
        assert(o@[3] as nat == v4_octets(a)[3]);
        assert(s@ =~= old(s)@ + ipv4_text(a));
    }
}

/// Appends the numbers `v[lo..hi]` in hexadecimal, separated by `:`.
fn push_hex_groups(s: &mut String, v: &Vec<u128>, lo: usize, hi: usize, Ghost(g): Ghost<Seq<nat>>)
    requires
        lo <= hi <= v@.len() == g.len(),
        forall|i: int| 0 <= i < v@.len() ==> v@[i] as nat == g[i],
    ensures
        final(s)@ == old(s)@ + hex_groups(g.subrange(lo as int, hi as int)),
{
    let mut i: usize = lo;
    while i < hi
        invariant
            lo <= i <= hi <= v@.len() == g.len(),
            forall|i: int| 0 <= i < v@.len() ==> v@[i] as nat == g[i],
            s@ == old(s)@ + hex_groups(g.subrange(lo as int, i as int)),
        decreases hi - i,
    {
        let ghost before = s@;
        if i > lo {
            push_char(s, ':');
        }
        push_hex(s, v[i]);
        proof {
            reveal_strlit(":");
            let next = g.subrange(lo as int, i + 1);
            assert(next.drop_last() =~= g.subrange(lo as int, i as int));
            assert(next.last() == g[i as int]);
            if i == lo {
                assert(g.subrange(lo as int, i as int).len() == 0);
                assert(s@ =~= old(s)@ + hex_groups(next));
            } else {
                assert(s@ =~= old(s)@ + hex_groups(next));
            }
        }
        i = i + 1;
    }
}

/// Appends the text of a 128-bit address as [`ipv6_text`] gives it.
pub fn push_ipv6(s: &mut String, a: u128)
    ensures
        final(s)@ == old(s)@ + ipv6_text(a),
{
    let v = digits_of(a, 65536, 8);
    let ghost g = v6_segments(a);
    proof {
        lemma_digits_len(a as nat, 65536, 8);
    }
    if v[0] == 0 && v[1] == 0 && v[2] == 0 && v[3] == 0 && v[4] == 0 && v[5] == 0xffff {
        proof {
            reveal_strlit("::ffff:");
        }
        push_str(s, "::ffff:");
        push_ipv4(s, (a % 0x1_0000_0000) as u32);
        return;
    }
    // Scan from the end: `cur` is the run of zeros from `i`, and
    // `(best, best_len)` the first longest run from `i` on.
    let mut i: usize = 8;
    let mut cur: usize = 0;
    let mut best: usize = 8;
    let mut best_len: usize = 0;
    while i > 0
        invariant
            0 <= i <= 8,
            v@.len() == 8 == g.len(),
            forall|k: int| 0 <= k < 8 ==> v@[k] as nat == g[k],
            cur == zero_run(g, i as int),
            (best as int, best_len as nat) == longest_zero_run(g, i as int),
            cur <= 8 - i,
            best <= 8,
            best_len <= 8 - best,
        decreases i,
    {
        i = i - 1;
        if v[i] == 0 {
            cur = cur + 1;
        } else {
            cur = 0;
        }
        if cur > 0 && cur >= best_len {
            best = i;
            best_len = cur;
        }
    }
    if best_len > 1 {
        push_hex_groups(s, &v, 0, best, Ghost(g));
        push_str(s, "::");
        push_hex_groups(s, &v, best + best_len, 8, Ghost(g));
    } else {
        push_hex_groups(s, &v, 0, 8, Ghost(g));
        assert(g.subrange(0, 8) =~= g);
    }
}

} // verus!

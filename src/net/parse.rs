//! Reading addresses from text: four dotted decimal octets for the 32-bit
//! family; for the 128-bit family up to eight colon-separated hexadecimal
//! groups, at most one `::` standing for one or more zero groups, and
//! optionally dotted decimal octets in place of the last two groups.

use vstd::arithmetic::power2::{lemma2_to64, lemma_pow2_adds, lemma_pow2_strictly_increases, pow2};
use vstd::prelude::*;

use crate::net::v4_from_octets;

verus! {

/// `s` cut at every `sep`: one part more than there are separators.
pub open spec fn split(s: Seq<char>, sep: char) -> Seq<Seq<char>>
    decreases s.len(),
{
    if s.len() == 0 {
        seq![seq![]]
    } else {
        let rest = split(s.drop_last(), sep);
        if s.last() == sep {
            rest.push(seq![])
        } else {
            rest.update(rest.len() - 1, rest.last().push(s.last()))
        }
    }
}

/// The value of a decimal digit character, or of a hexadecimal one where
/// `radix` is 16.
pub open spec fn digit_value(c: char, radix: nat) -> Option<nat> {
    if '0' <= c && c <= '9' {
        Some((c as nat - '0' as nat) as nat)
    } else if radix == 16 && 'a' <= c && c <= 'f' {
        Some((c as nat - 'a' as nat + 10) as nat)
    } else if radix == 16 && 'A' <= c && c <= 'F' {
        Some((c as nat - 'A' as nat + 10) as nat)
    } else {
        None
    }
}

/// The value of a run of digits in base `radix`; `None` where a character
/// is no such digit.
pub open spec fn number_value(s: Seq<char>, radix: nat) -> Option<nat>
    decreases s.len(),
{
    if s.len() == 0 {
        Some(0)
    } else {
        match (number_value(s.drop_last(), radix), digit_value(s.last(), radix)) {
            (Some(h), Some(d)) => Some(h * radix + d),
            _ => None,
        }
    }
}

/// An octet: one to three decimal digits, no leading zero, at most 255.
pub open spec fn octet_value(s: Seq<char>) -> Option<nat> {
    if 1 <= s.len() <= 3 && !(s.len() > 1 && s[0] == '0') {
        match number_value(s, 10) {
            Some(v) if v <= 255 => Some(v),
            _ => None,
        }
    } else {
        None
    }
}

/// A group: one to four hexadecimal digits.
pub open spec fn group_value(s: Seq<char>) -> Option<nat> {
    if 1 <= s.len() <= 4 {
        number_value(s, 16)
    } else {
        None
    }
}

/// The 32-bit address that `s` writes, if any.
pub open spec fn parse_ipv4_spec(s: Seq<char>) -> Option<u32> {
    let p = split(s, '.');
    if p.len() == 4 {
        match (octet_value(p[0]), octet_value(p[1]), octet_value(p[2]), octet_value(p[3])) {
            (Some(a), Some(b), Some(c), Some(d)) => Some(
                v4_from_octets(a as u8, b as u8, c as u8, d as u8) as u32,
            ),
            _ => None,
        }
    } else {
        None
    }
}

/// The values of groups that are all hexadecimal.
pub open spec fn hex_groups_value(parts: Seq<Seq<char>>) -> Option<Seq<nat>>
    decreases parts.len(),
{
    if parts.len() == 0 {
        Some(seq![])
    } else {
        match (hex_groups_value(parts.drop_last()), group_value(parts.last())) {
            (Some(init), Some(v)) => Some(init.push(v)),
            _ => None,
        }
    }
}

/// The 16-bit values of groups whose last may also be a dotted 32-bit
/// address, which counts as two groups.
pub open spec fn groups_value(parts: Seq<Seq<char>>) -> Option<Seq<nat>> {
    if parts.len() == 0 {
        Some(seq![])
    } else {
        match hex_groups_value(parts.drop_last()) {
            None => None,
            Some(init) => match group_value(parts.last()) {
                Some(v) => Some(init.push(v)),
                None => match parse_ipv4_spec(parts.last()) {
                    Some(a) => Some(init.push(a as nat / 65536).push(a as nat % 65536)),
                    None => None,
                },
            },
        }
    }
}

/// The number whose base-65536 digits, most significant first, are `v`.
pub open spec fn segments_value(v: Seq<nat>) -> nat
    decreases v.len(),
{
    if v.len() == 0 {
        0
    } else {
        segments_value(v.drop_last()) * 65536 + v.last()
    }
}

/// Position of the first `::` in `s` from `i` on.
pub open spec fn double_colon_from(s: Seq<char>, i: int) -> Option<int>
    decreases s.len() - i,
{
    if i < 0 || i + 1 >= s.len() {
        None
    } else if s[i] == ':' && s[i + 1] == ':' {
        Some(i)
    } else {
        double_colon_from(s, i + 1)
    }
}

/// The groups of one side of `::`; none where the side is empty.
pub open spec fn side_value(s: Seq<char>, last_may_be_v4: bool) -> Option<Seq<nat>> {
    if s.len() == 0 {
        Some(seq![])
    } else if last_may_be_v4 {
        groups_value(split(s, ':'))
    } else {
        hex_groups_value(split(s, ':'))
    }
}

/// The 128-bit address that `s` writes, if any.
pub open spec fn parse_ipv6_spec(s: Seq<char>) -> Option<u128> {
    match double_colon_from(s, 0) {
        None => match groups_value(split(s, ':')) {
            Some(v) if v.len() == 8 => Some(segments_value(v) as u128),
            _ => None,
        },
        Some(k) => match (
            side_value(s.subrange(0, k), false),
            side_value(s.subrange(k + 2, s.len() as int), true),
        ) {
            (Some(h), Some(t)) if h.len() + t.len() <= 7 => Some(
                segments_value(h + Seq::new((8 - h.len() - t.len()) as nat, |i: int| 0nat) + t)
                    as u128,
            ),
            _ => None,
        },
    }
}

/// `s` cut at every `sep`.
pub fn split_exec(s: &Vec<char>, sep: char) -> (r: Vec<Vec<char>>)
    ensures
        r@.len() == split(s@, sep).len(),
        forall|i: int| 0 <= i < r@.len() ==> #[trigger] r@[i]@ == split(s@, sep)[i],
{
    let mut done: Vec<Vec<char>> = Vec::new();
    let mut cur: Vec<char> = Vec::new();
    let mut i: usize = 0;
    assert(s@.subrange(0, 0) =~= Seq::<char>::empty());
    while i < s.len()
        invariant
            i <= s@.len(),
            split(s@.subrange(0, i as int), sep).len() == done@.len() + 1,
            forall|k: int|
                0 <= k < done@.len() ==> #[trigger] done@[k]@ == split(
                    s@.subrange(0, i as int),
                    sep,
                )[k],
            cur@ == split(s@.subrange(0, i as int), sep).last(),
        decreases s@.len() - i,
    {
        let c = s[i];
        proof {
            assert(s@.subrange(0, i + 1).drop_last() =~= s@.subrange(0, i as int));
        }
        if c == sep {
            done.push(cur);
            cur = Vec::new();
        } else {
            cur.push(c);
        }
        i = i + 1;
    }
    done.push(cur);
    assert(s@.subrange(0, i as int) =~= s@);
    done
}

/// The characters `s[lo..hi]`.
pub fn sub_vec(s: &Vec<char>, lo: usize, hi: usize) -> (r: Vec<char>)
    requires
        lo <= hi <= s@.len(),
    ensures
        r@ == s@.subrange(lo as int, hi as int),
{
    let mut r: Vec<char> = Vec::new();
    let mut i: usize = lo;
    while i < hi
        invariant
            lo <= i <= hi <= s@.len(),
            r@ == s@.subrange(lo as int, i as int),
        decreases hi - i,
    {
        r.push(s[i]);
        i = i + 1;
        assert(r@ =~= s@.subrange(lo as int, i as int));
    }
    r
}

fn digit_value_exec(c: char, radix: u32) -> (r: Option<u32>)
    requires
        radix == 10 || radix == 16,
    ensures
        match r {
            Some(v) => digit_value(c, radix as nat) == Some(v as nat) && v < radix,
            None => digit_value(c, radix as nat) is None,
        },
{
    if '0' <= c && c <= '9' {
        Some((c as u32) - ('0' as u32))
    } else if radix == 16 && 'a' <= c && c <= 'f' {
        Some((c as u32) - ('a' as u32) + 10)
    } else if radix == 16 && 'A' <= c && c <= 'F' {
        Some((c as u32) - ('A' as u32) + 10)
    } else {
        None
    }
}

/// The value of at most four digits in base 10 or 16.
fn number_exec(s: &Vec<char>, radix: u32) -> (r: Option<u32>)
    requires
        radix == 10 || radix == 16,
        s@.len() <= 4,
    ensures
        match r {
            Some(v) => number_value(s@, radix as nat) == Some(v as nat) && v < 65536,
            None => number_value(s@, radix as nat) is None,
        },
{
    let mut acc: u32 = 0;
    let mut i: usize = 0;
    assert(s@.subrange(0, 0) =~= Seq::<char>::empty());
    while i < s.len()
        invariant
            radix == 10 || radix == 16,
            s@.len() <= 4,
            i <= s@.len(),
            number_value(s@.subrange(0, i as int), radix as nat) == Some(acc as nat),
            acc < 65536,
            i <= 3 ==> acc < 4096,
            i <= 2 ==> acc < 256,
            i <= 1 ==> acc < 16,
            i == 0 ==> acc == 0,
        decreases s@.len() - i,
    {
        proof {
            assert(s@.subrange(0, i + 1).drop_last() =~= s@.subrange(0, i as int));
        }
        match digit_value_exec(s[i], radix) {
            Some(d) => {
                assert(acc * radix + d < 16 * acc + 16) by (nonlinear_arith)
                    requires
                        radix <= 16,
                        d < radix,
                ;
                acc = acc * radix + d;
            },
            None => {
                proof {
                    assert(number_value(s@.subrange(0, i + 1), radix as nat) is None);
                    lemma_number_none_extends(s@, radix as nat, i + 1);
                }
                return None;
            },
        }
        i = i + 1;
    }
    assert(s@.subrange(0, i as int) =~= s@);
    Some(acc)
}

proof fn lemma_number_none_extends(s: Seq<char>, radix: nat, j: int)
    requires
        0 <= j <= s.len(),
        number_value(s.subrange(0, j), radix) is None,
    ensures
        number_value(s, radix) is None,
    decreases s.len() - j,
{
    if j < s.len() {
        assert(s.subrange(0, j + 1).drop_last() =~= s.subrange(0, j));
        lemma_number_none_extends(s, radix, j + 1);
    } else {
        assert(s.subrange(0, j) =~= s);
    }
}

fn octet_exec(s: &Vec<char>) -> (r: Option<u8>)
    ensures
        match r {
            Some(v) => octet_value(s@) == Some(v as nat),
            None => octet_value(s@) is None,
        },
{
    if s.len() < 1 || s.len() > 3 || (s.len() > 1 && s[0] == '0') {
        return None;
    }
    match number_exec(s, 10) {
        Some(v) => if v <= 255 {
            Some(v as u8)
        } else {
            None
        },
        None => None,
    }
}

fn group_exec(s: &Vec<char>) -> (r: Option<u16>)
    ensures
        match r {
            Some(v) => group_value(s@) == Some(v as nat),
            None => group_value(s@) is None,
        },
{
    if s.len() < 1 || s.len() > 4 {
        return None;
    }
    match number_exec(s, 16) {
        Some(v) => Some(v as u16),
        None => None,
    }
}

/// The 32-bit address that `s` writes in dotted decimal.
pub fn parse_ipv4(s: &Vec<char>) -> (r: Option<u32>)
    ensures
        r == parse_ipv4_spec(s@),
{
    let p = split_exec(s, '.');
    if p.len() != 4 {
        return None;
    }
    let a = octet_exec(&p[0]);
    let b = octet_exec(&p[1]);
    let c = octet_exec(&p[2]);
    let d = octet_exec(&p[3]);
    match (a, b, c, d) {
        (Some(a), Some(b), Some(c), Some(d)) => {
            let v: u32 = ((a as u32 * 256 + b as u32) * 256 + c as u32) * 256 + d as u32;
            Some(v)
        },
        _ => None,
    }
}

proof fn lemma_hex_none_extends(ps: Seq<Seq<char>>, j: int, m: int)
    requires
        0 <= j <= m <= ps.len(),
        hex_groups_value(ps.subrange(0, j)) is None,
    ensures
        hex_groups_value(ps.subrange(0, m)) is None,
    decreases m - j,
{
    if j < m {
        assert(ps.subrange(0, j + 1).drop_last() =~= ps.subrange(0, j));
        lemma_hex_none_extends(ps, j + 1, m);
    }
}

/// The values of the first `n` groups, where all are hexadecimal.
fn hex_groups_exec(parts: &Vec<Vec<char>>, n: usize, Ghost(ps): Ghost<Seq<Seq<char>>>) -> (r: Option<Vec<u16>>)
    requires
        n <= parts@.len() == ps.len(),
        forall|i: int| 0 <= i < ps.len() ==> #[trigger] parts@[i]@ == ps[i],
    ensures
        match r {
            Some(v) => hex_groups_value(ps.subrange(0, n as int)) == Some(
                v@.map_values(|x: u16| x as nat),
            ),
            None => hex_groups_value(ps.subrange(0, n as int)) is None,
        },
{
    let mut v: Vec<u16> = Vec::new();
    let mut i: usize = 0;
    assert(ps.subrange(0, 0) =~= Seq::<Seq<char>>::empty());
    assert(v@.map_values(|x: u16| x as nat) =~= Seq::<nat>::empty());
    while i < n
        invariant
            i <= n <= parts@.len() == ps.len(),
            forall|i: int| 0 <= i < ps.len() ==> #[trigger] parts@[i]@ == ps[i],
            hex_groups_value(ps.subrange(0, i as int)) == Some(v@.map_values(|x: u16| x as nat)),
        decreases n - i,
    {
        assert(ps.subrange(0, i + 1).drop_last() =~= ps.subrange(0, i as int));
        assert(ps.subrange(0, i + 1).last() == parts@[i as int]@);
        match group_exec(&parts[i]) {
            Some(g) => {
                let ghost before = v@.map_values(|x: u16| x as nat);
                v.push(g);
                assert(v@.map_values(|x: u16| x as nat) =~= before.push(g as nat));
            },
            None => {
                proof {
                    lemma_hex_none_extends(ps, i + 1, n as int);
                }
                return None;
            },
        }
        i = i + 1;
    }
    Some(v)
}

/// The 16-bit values of all groups, the last of which may be a dotted
/// 32-bit address.
fn groups_exec(parts: &Vec<Vec<char>>, Ghost(ps): Ghost<Seq<Seq<char>>>, last_may_be_v4: bool) -> (r: Option<Vec<u16>>)
    requires
        parts@.len() == ps.len(),
        forall|i: int| 0 <= i < ps.len() ==> #[trigger] parts@[i]@ == ps[i],
    ensures
        match r {
            Some(v) => (if last_may_be_v4 {
                groups_value(ps)
            } else {
                hex_groups_value(ps)
            }) == Some(v@.map_values(|x: u16| x as nat)),
            None => (if last_may_be_v4 {
                groups_value(ps)
            } else {
                hex_groups_value(ps)
            }) is None,
        },
{
    let n = parts.len();
    if !last_may_be_v4 {
        assert(ps.subrange(0, n as int) =~= ps);
        return hex_groups_exec(parts, n, Ghost(ps));
    }
    if n == 0 {
        let v: Vec<u16> = Vec::new();
        assert(v@.map_values(|x: u16| x as nat) =~= Seq::<nat>::empty());
        return Some(v);
    }
    assert(ps.subrange(0, n - 1) =~= ps.drop_last());
    let init = hex_groups_exec(parts, n - 1, Ghost(ps));
    match init {
        None => None,
        Some(mut v) => {
            let ghost before = v@.map_values(|x: u16| x as nat);
            assert(ps.last() == parts@[n - 1]@);
            match group_exec(&parts[n - 1]) {
                Some(g) => {
                    v.push(g);
                    assert(v@.map_values(|x: u16| x as nat) =~= before.push(g as nat));
                    Some(v)
                },
                None => match parse_ipv4(&parts[n - 1]) {
                    Some(a) => {
                        v.push((a / 65536) as u16);
                        v.push((a % 65536) as u16);
                        assert(v@.map_values(|x: u16| x as nat) =~= before.push(a as nat / 65536).push(
                            a as nat % 65536,
                        ));
                        Some(v)
                    },
                    None => None,
                },
            }
        },
    }
}

/// The groups of one side of `::`.
fn side_exec(s: &Vec<char>, last_may_be_v4: bool) -> (r: Option<Vec<u16>>)
    ensures
        match r {
            Some(v) => side_value(s@, last_may_be_v4) == Some(v@.map_values(|x: u16| x as nat)),
            None => side_value(s@, last_may_be_v4) is None,
        },
{
    if s.len() == 0 {
        let v: Vec<u16> = Vec::new();
        assert(v@.map_values(|x: u16| x as nat) =~= Seq::<nat>::empty());
        return Some(v);
    }
    let parts = split_exec(s, ':');
    groups_exec(&parts, Ghost(split(s@, ':')), last_may_be_v4)
}

/// Position of the first `::` in `s`.
fn find_double_colon(s: &Vec<char>) -> (r: Option<usize>)
    ensures
        match r {
            Some(k) => double_colon_from(s@, 0) == Some(k as int) && k + 1 < s@.len(),
            None => double_colon_from(s@, 0) is None,
        },
{
    let mut i: usize = 0;
    while s.len() > 0 && i < s.len() - 1
        invariant
            double_colon_from(s@, 0) == double_colon_from(s@, i as int),
        decreases s@.len() - i,
    {
        if s[i] == ':' && s[i + 1] == ':' {
            return Some(i);
        }
        i = i + 1;
    }
    None
}

proof fn lemma_map_push(a: Seq<u16>, x: u16)
    ensures
        a.push(x).map_values(|y: u16| y as nat) == a.map_values(|y: u16| y as nat).push(x as nat),
{
    assert(a.push(x).map_values(|y: u16| y as nat) =~= a.map_values(|y: u16| y as nat).push(x as nat));
}

/// The number whose base-65536 digits, most significant first, are `v`.
fn segments_exec(v: &Vec<u16>) -> (r: u128)
    requires
        v@.len() == 8,
    ensures
        r as nat == segments_value(v@.map_values(|x: u16| x as nat)),
{
    let ghost m = v@.map_values(|x: u16| x as nat);
    let mut acc: u128 = 0;
    let mut i: usize = 0;
    proof {
        lemma2_to64();
        assert(m.subrange(0, 0) =~= Seq::<nat>::empty());
    }
    while i < 8
        invariant
            i <= 8,
            v@.len() == 8,
            m == v@.map_values(|x: u16| x as nat),
            acc as nat == segments_value(m.subrange(0, i as int)),
            acc < pow2(16 * i as nat),
        decreases 8 - i,
    {
        let x = v[i];
        proof {
            assert(m.subrange(0, i + 1).drop_last() =~= m.subrange(0, i as int));
            assert(m.subrange(0, i + 1).last() == x as nat);
            lemma2_to64();
            lemma_pow2_adds(16 * i as nat, 16);
            assert(16 * i as nat + 16 == 16 * (i + 1) as nat);
            if i < 7 {
                lemma_pow2_strictly_increases(16 * i as nat, 112);
            }
            lemma_pow2_adds(112, 16);
            lemma_pow2_adds(64, 48);
            lemma_pow2_adds(32, 16);
            let p = pow2(16 * i as nat);
            assert(acc * 65536 + x < p * 65536) by (nonlinear_arith)
                requires
                    acc < p,
                    x < 65536,
            ;
        }
        acc = acc * 65536 + x as u128;
        i = i + 1;
    }
    assert(m.subrange(0, 8) =~= m);
    acc
}

/// The 128-bit address that `s` writes.
pub fn parse_ipv6(s: &Vec<char>) -> (r: Option<u128>)
    ensures
        r == parse_ipv6_spec(s@),
{
    match find_double_colon(s) {
        None => {
            let parts = split_exec(s, ':');
            match groups_exec(&parts, Ghost(split(s@, ':')), true) {
                Some(v) => if v.len() == 8 {
                    Some(segments_exec(&v))
                } else {
                    None
                },
                None => None,
            }
        },
        Some(k) => {
            let n = s.len();
            assert(k + 1 < n);
            let head = sub_vec(s, 0, k);
            let tail = sub_vec(s, k + 2, n);
            match (side_exec(&head, false), side_exec(&tail, true)) {
                (Some(h), Some(t)) => {
                    if h.len() <= 7 && t.len() <= 7 - h.len() {
                        let ghost hm = h@.map_values(|x: u16| x as nat);
                        let ghost tm = t@.map_values(|x: u16| x as nat);
                        let zeros: usize = 8 - h.len() - t.len();
                        let mut v: Vec<u16> = Vec::new();
                        let mut i: usize = 0;
                        while i < h.len()
                            invariant
                                i <= h@.len(),
                                v@.map_values(|x: u16| x as nat) == hm.subrange(0, i as int),
                                hm == h@.map_values(|x: u16| x as nat),
                            decreases h@.len() - i,
                        {
                            let ghost pv = v@;
                            v.push(h[i]);
                            proof {
                                lemma_map_push(pv, h@[i as int]);
                                assert(hm.subrange(0, i + 1) =~= hm.subrange(0, i as int).push(hm[i as int]));
                            }
                            i = i + 1;
                        }
                        assert(hm.subrange(0, i as int) =~= hm);
                        let ghost zs = Seq::new(zeros as nat, |j: int| 0nat);
                        let mut j: usize = 0;
                        while j < zeros
                            invariant
                                j <= zeros,
                                zs == Seq::new(zeros as nat, |j: int| 0nat),
                                v@.map_values(|x: u16| x as nat) == hm + zs.subrange(0, j as int),
                            decreases zeros - j,
                        {
                            let ghost pv = v@;
                            v.push(0);
                            proof {
                                lemma_map_push(pv, 0);
                                assert(hm + zs.subrange(0, j + 1) =~= (hm + zs.subrange(0, j as int)).push(0nat));
                            }
                            j = j + 1;
                        }
                        assert(zs.subrange(0, j as int) =~= zs);
                        let mut k2: usize = 0;
                        while k2 < t.len()
                            invariant
                                k2 <= t@.len(),
                                tm == t@.map_values(|x: u16| x as nat),
                                v@.map_values(|x: u16| x as nat) == hm + zs + tm.subrange(0, k2 as int),
                            decreases t@.len() - k2,
                        {
                            let ghost pv = v@;
                            v.push(t[k2]);
                            proof {
                                lemma_map_push(pv, t@[k2 as int]);
                                assert(hm + zs + tm.subrange(0, k2 + 1) =~= (hm + zs + tm.subrange(0, k2 as int)).push(tm[k2 as int]));
                            }
                            k2 = k2 + 1;
                        }
                        assert(tm.subrange(0, k2 as int) =~= tm);
                        Some(segments_exec(&v))
                    } else {
                        None
                    }
                },
                _ => None,
            }
        },
    }
}

} // verus!

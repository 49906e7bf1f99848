//! `{key}` placeholders: where they stand in a text, and the text with
//! each one replaced by the value of its key.

use vstd::prelude::*;

use crate::context::lookup;
use crate::text::string_of;

verus! {

/// Whether `c` may stand in a key: an ASCII letter or digit, or `_`.
pub open spec fn is_key_char(c: char) -> bool {
    ('a' <= c && c <= 'z') || ('A' <= c && c <= 'Z') || ('0' <= c && c <= '9') || c == '_'
}

/// How many key characters follow in `s` from position `i` on.
pub open spec fn key_run(s: Seq<char>, i: int) -> nat
    decreases s.len() - i,
{
    if 0 <= i < s.len() && is_key_char(s[i]) {
        1 + key_run(s, i + 1)
    } else {
        0
    }
}

/// Whether a placeholder `{key}` starts at position `i` of `s`.
pub open spec fn token_at(s: Seq<char>, i: int) -> bool {
    let n = key_run(s, i + 1);
    &&& 0 <= i < s.len()
    &&& s[i] == '{'
    &&& n > 0
    &&& i + 1 + n < s.len()
    &&& s[i + 1 + n] == '}'
}

/// The keys of the placeholders of `s` from position `i` on, leftmost
/// first, none overlapping another.
pub open spec fn tokens_from(s: Seq<char>, i: int) -> Seq<Seq<char>>
    decreases s.len() - i,
{
    if i < 0 || i >= s.len() {
        seq![]
    } else if token_at(s, i) {
        let n = key_run(s, i + 1);
        seq![s.subrange(i + 1, i + 1 + n)] + tokens_from(s, i + 2 + n)
    } else {
        tokens_from(s, i + 1)
    }
}

/// The placeholder text of `key`: `{key}`.
pub open spec fn token_text(key: Seq<char>) -> Seq<char> {
    seq!['{'] + key + seq!['}']
}

/// `s` with every occurrence of `pat`, from left to right and none
/// overlapping another, replaced by `val`.
pub open spec fn replace_all(s: Seq<char>, pat: Seq<char>, val: Seq<char>) -> Seq<char>
    decreases s.len(),
{
    if pat.len() == 0 || s.len() < pat.len() {
        s
    } else if s.subrange(0, pat.len() as int) == pat {
        val + replace_all(s.subrange(pat.len() as int, s.len() as int), pat, val)
    } else {
        seq![s[0]] + replace_all(s.subrange(1, s.len() as int), pat, val)
    }
}

/// The value of `key`: the zone's own, or else the global one.
pub open spec fn key_value(
    key: Seq<char>,
    zone_keys: Seq<(Seq<char>, Seq<char>)>,
    global_keys: Seq<(Seq<char>, Seq<char>)>,
) -> Option<Seq<char>> {
    match lookup(zone_keys, key, 0) {
        Some(v) => Some(v),
        None => lookup(global_keys, key, 0),
    }
}

/// `text` with the placeholders of `keys` replaced in turn, each at all its
/// occurrences; `Err` with the first key that has no value.
pub open spec fn substitute(
    text: Seq<char>,
    keys: Seq<Seq<char>>,
    zone_keys: Seq<(Seq<char>, Seq<char>)>,
    global_keys: Seq<(Seq<char>, Seq<char>)>,
) -> Result<Seq<char>, Seq<char>>
    decreases keys.len(),
{
    if keys.len() == 0 {
        Ok(text)
    } else {
        match key_value(keys[0], zone_keys, global_keys) {
            Some(v) => substitute(
                replace_all(text, token_text(keys[0]), v),
                keys.subrange(1, keys.len() as int),
                zone_keys,
                global_keys,
            ),
            None => Err(keys[0]),
        }
    }
}

/// `s` with its placeholders resolved against the zone's keys, then the
/// global ones; `Err` with the first key, in order of appearance, that has
/// no value.
pub open spec fn resolve_keys(
    s: Seq<char>,
    zone_keys: Seq<(Seq<char>, Seq<char>)>,
    global_keys: Seq<(Seq<char>, Seq<char>)>,
) -> Result<Seq<char>, Seq<char>> {
    substitute(s, tokens_from(s, 0), zone_keys, global_keys)
}

fn is_key_char_exec(c: char) -> (r: bool)
    ensures
        r == is_key_char(c),
{
    ('a' <= c && c <= 'z') || ('A' <= c && c <= 'Z') || ('0' <= c && c <= '9') || c == '_'
}

/// The keys of the placeholders of `s`, leftmost first.
pub fn key_tokens(s: &Vec<char>) -> (r: Vec<String>)
    ensures
        r@.len() == tokens_from(s@, 0).len(),
        forall|k: int| 0 <= k < r@.len() ==> #[trigger] r@[k]@ == tokens_from(s@, 0)[k],
{
    let n = s.len();
    let mut r: Vec<String> = Vec::new();
    let ghost mut found: Seq<Seq<char>> = seq![];
    let mut i: usize = 0;
    while i < n
        invariant
            n == s@.len(),
            i <= n,
            found.len() == r@.len(),
            forall|k: int| 0 <= k < r@.len() ==> #[trigger] r@[k]@ == found[k],
            tokens_from(s@, 0) == found + tokens_from(s@, i as int),
        decreases n - i,
    {
        let mut next = i + 1;
        if s[i] == '{' {
            let mut j = i + 1;
            while j < n && is_key_char_exec(s[j])
                invariant
                    n == s@.len(),
                    i < n,
                    i + 1 <= j <= n,
                    key_run(s@, i + 1) == (j - (i + 1)) + key_run(s@, j as int),
                decreases n - j,
            {
                j = j + 1;
            }
            assert(key_run(s@, i + 1) == j - (i + 1));
            if j > i + 1 && j < n && s[j] == '}' {
                let key = string_of(s, i + 1, j);
                r.push(key);
                proof {
                    let t = s@.subrange(i + 1, j as int);
                    assert(token_at(s@, i as int));
                    assert(tokens_from(s@, i as int) == seq![t] + tokens_from(s@, j + 1));
                    assert(found.push(t) + tokens_from(s@, j + 1) =~= found + (seq![t]
                        + tokens_from(s@, j + 1)));
                    found = found.push(t);
                }
                next = j + 1;
            } else {
                assert(!token_at(s@, i as int));
            }
        }
        i = next;
    }
    assert(found + tokens_from(s@, n as int) =~= found);
    r
}

/// Whether `pat` occurs in `s` at position `i`.
fn occurs_at(s: &Vec<char>, i: usize, pat: &Vec<char>) -> (r: bool)
    requires
        i <= s@.len(),
    ensures
        r == (i + pat@.len() <= s@.len() && s@.subrange(i as int, i + pat@.len()) == pat@),
{
    if pat.len() > s.len() - i {
        return false;
    }
    let mut k: usize = 0;
    while k < pat.len()
        invariant
            i + pat@.len() <= s.len(),
            s.len() == s@.len(),
            k <= pat@.len(),
            forall|m: int| 0 <= m < k ==> s@[i + m] == pat@[m],
        decreases pat@.len() - k,
    {
        if s[i + k] != pat[k] {
            assert(s@.subrange(i as int, i + pat@.len())[k as int] != pat@[k as int]);
            return false;
        }
        k = k + 1;
    }
    assert(s@.subrange(i as int, i + pat@.len()) =~= pat@);
    true
}

/// `s` with every occurrence of `pat` replaced by `val`.
pub fn replace_all_exec(s: &Vec<char>, pat: &Vec<char>, val: &Vec<char>) -> (r: Vec<char>)
    requires
        pat@.len() > 0,
    ensures
        r@ == replace_all(s@, pat@, val@),
{
    let n = s.len();
    let mut r: Vec<char> = Vec::new();
    let mut i: usize = 0;
    assert(s@.subrange(0, n as int) =~= s@);
    assert(r@ + s@ =~= s@);
    while i < n
        invariant
            n == s@.len(),
            i <= n,
            pat@.len() > 0,
            replace_all(s@, pat@, val@) == r@ + replace_all(
                s@.subrange(i as int, n as int),
                pat@,
                val@,
            ),
        decreases n - i,
    {
        let ghost rest = s@.subrange(i as int, n as int);
        if occurs_at(s, i, pat) {
            let mut k: usize = 0;
            let ghost before = r@;
            while k < val.len()
                invariant
                    k <= val@.len(),
                    r@ == before + val@.subrange(0, k as int),
                decreases val@.len() - k,
            {
                r.push(val[k]);
                k = k + 1;
                assert(r@ =~= before + val@.subrange(0, k as int));
            }
            proof {
                assert(val@.subrange(0, k as int) =~= val@);
                assert(rest.subrange(0, pat@.len() as int) =~= s@.subrange(
                    i as int,
                    i + pat@.len(),
                ));
                assert(rest.subrange(pat@.len() as int, rest.len() as int) =~= s@.subrange(
                    i + pat@.len(),
                    n as int,
                ));
                assert(before + (val@ + replace_all(
                    s@.subrange(i + pat@.len(), n as int),
                    pat@,
                    val@,
                )) =~= r@ + replace_all(s@.subrange(i + pat@.len(), n as int), pat@, val@));
            }
            i = i + pat.len();
        } else {
            let ghost before = r@;
            r.push(s[i]);
            proof {
                assert(rest.subrange(1, rest.len() as int) =~= s@.subrange(i + 1, n as int));
                if rest.len() < pat@.len() {
                    let tail = s@.subrange(i + 1, n as int);
                    assert(rest =~= seq![s@[i as int]] + tail);
                } else {
                    assert(rest.subrange(0, pat@.len() as int) =~= s@.subrange(
                        i as int,
                        i + pat@.len(),
                    ));
                }
                assert(before + (seq![s@[i as int]] + replace_all(
                    s@.subrange(i + 1, n as int),
                    pat@,
                    val@,
                )) =~= r@ + replace_all(s@.subrange(i + 1, n as int), pat@, val@));
            }
            i = i + 1;
        }
    }
    assert(s@.subrange(n as int, n as int).len() == 0);
    assert(r@ + s@.subrange(n as int, n as int) =~= r@);
    r
}

} // verus!

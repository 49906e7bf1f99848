use dns_zones_builder::placeholder::replace_all_exec;
use dns_zones_builder::placeholder::key_tokens;
use dns_zones_builder::text::{push_decimal, push_hex};

fn chars(s: &str) -> Vec<char> {
    s.chars().collect()
}

#[test]
fn decimal_and_hex_digits() {
    let mut s = String::new();
    push_decimal(&mut s, 0);
    s.push(' ');
    push_decimal(&mut s, 604800);
    s.push(' ');
    push_hex(&mut s, 0xc409);
    s.push(' ');
    push_decimal(&mut s, u128::MAX);
    assert_eq!(s, "0 604800 c409 340282366920938463463374607431768211455");
}

#[test]
fn placeholder_tokens_are_found_leftmost_first() {
    let keys = key_tokens(&chars("{a}{b_2}x{}{c-d}{{e}}"));
    assert_eq!(keys, vec!["a".to_string(), "b_2".to_string(), "e".to_string()]);
}

#[test]
fn replace_all_replaces_every_occurrence() {
    let r = replace_all_exec(&chars("{h}.{h}.x"), &chars("{h}"), &chars("db"));
    assert_eq!(r, chars("db.db.x"));
    let r2 = replace_all_exec(&chars("aaa"), &chars("aa"), &chars("b"));
    assert_eq!(r2, chars("ba"));
}

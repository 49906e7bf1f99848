//! Setting and clearing runs of bits at either end of an integer.

use vstd::arithmetic::power2::{lemma2_to64, lemma_pow2_pos, lemma_pow2_strictly_increases, pow2};
use vstd::bits::{lemma_u128_shr_is_div, lemma_u32_shr_is_div};
use vstd::prelude::*;

use crate::net::{lemma_pow2_128, lemma_pow2_32, lemma_pow2_minus_one_div};

verus! {

/// The `n` lowest bits of a `u32` set, the others clear.
pub open spec fn low_bits_u32(n: nat) -> u32 {
    (pow2(n) - 1) as u32
}

proof fn lemma_max_shr_u32(c: u32)
    requires
        c < 32,
    ensures
        u32::MAX >> c == low_bits_u32((32 - c) as nat),
{
    lemma_pow2_32();
    lemma2_to64();
    lemma_pow2_pos((32 - c) as nat);
    lemma_pow2_minus_one_div(32, c as nat);
    lemma_u32_shr_is_div(u32::MAX, c);
    if c > 0 {
        lemma_pow2_strictly_increases((32 - c) as nat, 32);
    }
}

proof fn lemma_max_shl_u32(c: u32)
    requires
        c < 32,
    ensures
        u32::MAX << c == !low_bits_u32(c as nat),
{
    lemma2_to64();
    if c == 0 {
        assert(u32::MAX << 0u32 == !0u32) by (bit_vector);
    } else {
        let d = (32 - c) as u32;
        assert(u32::MAX << c == !(u32::MAX >> d)) by (bit_vector)
            requires
                0 < c < 32,
                d == 32 - c,
        ;
        lemma_max_shr_u32((32 - c) as u32);
    }
}

proof fn lemma_low_bits_ends_u32()
    ensures
        low_bits_u32(0) == 0,
        low_bits_u32(32) == u32::MAX,
{
    lemma2_to64();
    lemma_pow2_32();
}

/// Sets the `bits` highest bits of `given`; false, and no change, where
/// `bits` exceeds 32.
pub fn flip_on_left_u32(given: &mut u32, bits: u8) -> (r: bool)
    ensures
        r == (bits <= 32),
        *final(given) == (if r {
            *old(given) | !low_bits_u32((32 - bits) as nat)
        } else {
            *old(given)
        }),
{
    if bits > 32 {
        false
    } else {
        proof {
            lemma_low_bits_ends_u32();
        }
        if bits == 0 {
            let g = *given;
            assert(g | !u32::MAX == g) by (bit_vector);
        } else {
            proof {
                lemma_max_shl_u32((32 - bits) as u32);
            }
            *given = *given | (u32::MAX << (32 - bits as u32));
        }
        true
    }
}

/// Sets the `bits` lowest bits of `given`; false, and no change, where
/// `bits` exceeds 32.
pub fn flip_on_right_u32(given: &mut u32, bits: u8) -> (r: bool)
    ensures
        r == (bits <= 32),
        *final(given) == (if r {
            *old(given) | low_bits_u32(bits as nat)
        } else {
            *old(given)
        }),
{
    if bits > 32 {
        false
    } else {
        proof {
            lemma_low_bits_ends_u32();
        }
        if bits == 0 {
            let g = *given;
            assert(g | 0u32 == g) by (bit_vector);
        } else {
            proof {
                lemma_max_shr_u32((32 - bits) as u32);
            }
            *given = *given | (u32::MAX >> (32 - bits as u32));
        }
        true
    }
}

/// Clears the `bits` highest bits of `given`; false, and no change, where
/// `bits` exceeds 32.
pub fn flip_off_left_u32(given: &mut u32, bits: u8) -> (r: bool)
    ensures
        r == (bits <= 32),
        *final(given) == (if r {
            *old(given) & low_bits_u32((32 - bits) as nat)
        } else {
            *old(given)
        }),
{
    if bits > 32 {
        false
    } else {
        proof {
            lemma_low_bits_ends_u32();
        }
        if bits == 32 {
            let g = *given;
            assert(g & 0u32 == 0) by (bit_vector);
            *given = 0;
        } else {
            proof {
                lemma_max_shr_u32(bits as u32);
            }
            *given = *given & (u32::MAX >> bits as u32);
        }
        true
    }
}

/// Clears the `bits` lowest bits of `given`; false, and no change, where
/// `bits` exceeds 32.
pub fn flip_off_right_u32(given: &mut u32, bits: u8) -> (r: bool)
    ensures
        r == (bits <= 32),
        *final(given) == (if r {
            *old(given) & !low_bits_u32(bits as nat)
        } else {
            *old(given)
        }),
{
    if bits > 32 {
        false
    } else {
        proof {
            lemma_low_bits_ends_u32();
        }
        if bits == 32 {
            let g = *given;
            assert(g & !u32::MAX == 0) by (bit_vector);
            *given = 0;
        } else {
            proof {
                lemma_max_shl_u32(bits as u32);
            }
            *given = *given & (u32::MAX << bits as u32);
        }
        true
    }
}

/// The `n` lowest bits of a `u128` set, the others clear.
pub open spec fn low_bits_u128(n: nat) -> u128 {
    (pow2(n) - 1) as u128
}

proof fn lemma_max_shr_u128(c: u128)
    requires
        c < 128,
    ensures
        u128::MAX >> c == low_bits_u128((128 - c) as nat),
{
    lemma_pow2_128();
    lemma2_to64();
    lemma_pow2_pos((128 - c) as nat);
    lemma_pow2_minus_one_div(128, c as nat);
    lemma_u128_shr_is_div(u128::MAX, c);
    if c > 0 {
        lemma_pow2_strictly_increases((128 - c) as nat, 128);
    }
}

proof fn lemma_max_shl_u128(c: u128)
    requires
        c < 128,
    ensures
        u128::MAX << c == !low_bits_u128(c as nat),
{
    lemma2_to64();
    if c == 0 {
        assert(u128::MAX << 0u128 == !0u128) by (bit_vector);
    } else {
        let d = (128 - c) as u128;
        assert(u128::MAX << c == !(u128::MAX >> d)) by (bit_vector)
            requires
                0 < c < 128,
                d == 128 - c,
        ;
        lemma_max_shr_u128((128 - c) as u128);
    }
}

proof fn lemma_low_bits_ends_u128()
    ensures
        low_bits_u128(0) == 0,
        low_bits_u128(128) == u128::MAX,
{
    lemma2_to64();
    lemma_pow2_128();
}

/// Sets the `bits` highest bits of `given`; false, and no change, where
/// `bits` exceeds 128.
pub fn flip_on_left_u128(given: &mut u128, bits: u8) -> (r: bool)
    ensures
        r == (bits <= 128),
        *final(given) == (if r {
            *old(given) | !low_bits_u128((128 - bits) as nat)
        } else {
            *old(given)
        }),
{
    if bits > 128 {
        false
    } else {
        proof {
            lemma_low_bits_ends_u128();
        }
        if bits == 0 {
            let g = *given;
            assert(g | !u128::MAX == g) by (bit_vector);
        } else {
            proof {
                lemma_max_shl_u128((128 - bits) as u128);
            }
            *given = *given | (u128::MAX << (128 - bits as u128));
        }
        true
    }
}

/// Sets the `bits` lowest bits of `given`; false, and no change, where
/// `bits` exceeds 128.
pub fn flip_on_right_u128(given: &mut u128, bits: u8) -> (r: bool)
    ensures
        r == (bits <= 128),
        *final(given) == (if r {
            *old(given) | low_bits_u128(bits as nat)
        } else {
            *old(given)
        }),
{
    if bits > 128 {
        false
    } else {
        proof {
            lemma_low_bits_ends_u128();
        }
        if bits == 0 {
            let g = *given;
            assert(g | 0u128 == g) by (bit_vector);
        } else {
            proof {
                lemma_max_shr_u128((128 - bits) as u128);
            }
            *given = *given | (u128::MAX >> (128 - bits as u128));
        }
        true
    }
}

/// Clears the `bits` highest bits of `given`; false, and no change, where
/// `bits` exceeds 128.
pub fn flip_off_left_u128(given: &mut u128, bits: u8) -> (r: bool)
    ensures
        r == (bits <= 128),
        *final(given) == (if r {
            *old(given) & low_bits_u128((128 - bits) as nat)
        } else {
            *old(given)
        }),
{
    if bits > 128 {
        false
    } else {
        proof {
            lemma_low_bits_ends_u128();
        }
        if bits == 128 {
            let g = *given;
            assert(g & 0u128 == 0) by (bit_vector);
            *given = 0;
        } else {
            proof {
                lemma_max_shr_u128(bits as u128);
            }
            *given = *given & (u128::MAX >> bits as u128);
        }
        true
    }
}

/// Clears the `bits` lowest bits of `given`; false, and no change, where
/// `bits` exceeds 128.
pub fn flip_off_right_u128(given: &mut u128, bits: u8) -> (r: bool)
    ensures
        r == (bits <= 128),
        *final(given) == (if r {
            *old(given) & !low_bits_u128(bits as nat)
        } else {
            *old(given)
        }),
{
    if bits > 128 {
        false
    } else {
        proof {
            lemma_low_bits_ends_u128();
        }
        if bits == 128 {
            let g = *given;
            assert(g & !u128::MAX == 0) by (bit_vector);
            *given = 0;
        } else {
            proof {
                lemma_max_shl_u128(bits as u128);
            }
            *given = *given & (u128::MAX << bits as u128);
        }
        true
    }
}

} // verus!

use vstd::prelude::*;
use vstd::utf8::*;

verus! {

// The bit-level facts behind each arm of the validator: the value range of
// a decoded codepoint, given the ranges of its bytes. Each is stated over
// the same expressions that `vstd::utf8` uses to define
// `codepoint_width_2` through `codepoint_width_4`.
proof fn lemma_bv_width_1(b0: u8)
    by (bit_vector)
    requires
        b0 <= 0x7f,
    ensures
        ((b0 & 0x7f) as u32) <= 0x7f,
{
}

proof fn lemma_bv_width_2(b0: u8, b1: u8)
    by (bit_vector)
    requires
        0xc2 <= b0 <= 0xdf,
        0x80 <= b1 <= 0xbf,
    ensures
        0x80 <= ((((b0 & 0x1f) as u32) << 6) | ((b1 & 0x3f) as u32)) <= 0x7ff,
{
}

proof fn lemma_bv_width_2_overlong(b0: u8, b1: u8)
    by (bit_vector)
    requires
        0xc0 <= b0 <= 0xc1,
    ensures
        ((((b0 & 0x1f) as u32) << 6) | ((b1 & 0x3f) as u32)) < 0x80,
{
}

proof fn lemma_bv_width_3(b0: u8, b1: u8, b2: u8)
    by (bit_vector)
    requires
        0xe0 <= b0 <= 0xef,
        0x80 <= b1 <= 0xbf,
        0x80 <= b2 <= 0xbf,
        b0 == 0xe0 ==> 0xa0 <= b1,
        !(b0 == 0xed && 0xa0 <= b1),
    ensures
        0x800 <= ((((b0 & 0x0f) as u32) << 12) | (((b1 & 0x3f) as u32) << 6) | ((b2
            & 0x3f) as u32)) <= 0xffff,
        !(0xd800 <= ((((b0 & 0x0f) as u32) << 12) | (((b1 & 0x3f) as u32) << 6) | ((b2
            & 0x3f) as u32)) <= 0xdfff),
{
}

proof fn lemma_bv_width_3_overlong(b0: u8, b1: u8, b2: u8)
    by (bit_vector)
    requires
        b0 == 0xe0,
        0x80 <= b1 < 0xa0,
    ensures
        ((((b0 & 0x0f) as u32) << 12) | (((b1 & 0x3f) as u32) << 6) | ((b2 & 0x3f) as u32))
            < 0x800,
{
}

proof fn lemma_bv_width_3_surrogate(b0: u8, b1: u8, b2: u8)
    by (bit_vector)
    requires
        b0 == 0xed,
        0xa0 <= b1 <= 0xbf,
    ensures
        0xd800 <= ((((b0 & 0x0f) as u32) << 12) | (((b1 & 0x3f) as u32) << 6) | ((b2
            & 0x3f) as u32)) <= 0xdfff,
{
}

proof fn lemma_bv_width_4(b0: u8, b1: u8, b2: u8, b3: u8)
    by (bit_vector)
    requires
        0xf0 <= b0 <= 0xf4,
        0x80 <= b1 <= 0xbf,
        0x80 <= b2 <= 0xbf,
        0x80 <= b3 <= 0xbf,
        b0 == 0xf0 ==> 0x90 <= b1,
        b0 == 0xf4 ==> b1 < 0x90,
    ensures
        0x10000 <= ((((b0 & 0x07) as u32) << 18) | (((b1 & 0x3f) as u32) << 12) | (((b2
            & 0x3f) as u32) << 6) | ((b3 & 0x3f) as u32)) <= 0x10ffff,
{
}

proof fn lemma_bv_width_4_overlong(b0: u8, b1: u8, b2: u8, b3: u8)
    by (bit_vector)
    requires
        b0 == 0xf0,
        0x80 <= b1 < 0x90,
    ensures
        ((((b0 & 0x07) as u32) << 18) | (((b1 & 0x3f) as u32) << 12) | (((b2 & 0x3f) as u32) << 6)
            | ((b3 & 0x3f) as u32)) < 0x10000,
{
}

proof fn lemma_bv_width_4_beyond(b0: u8, b1: u8, b2: u8, b3: u8)
    by (bit_vector)
    requires
        0xf4 <= b0 <= 0xf7,
        0x80 <= b1 <= 0xbf,
        b0 == 0xf4 ==> 0x90 <= b1,
    ensures
        ((((b0 & 0x07) as u32) << 18) | (((b1 & 0x3f) as u32) << 12) | (((b2 & 0x3f) as u32) << 6)
            | ((b3 & 0x3f) as u32)) > 0x10ffff,
{
}

// A valid prefix followed by a suffix whose head is no well-formed scalar
// encoding makes the whole sequence invalid.
proof fn lemma_invalid_at(bytes: Seq<u8>, i: int)
    requires
        partial_valid_utf8(bytes, i),
        i < bytes.len(),
        !valid_first_scalar(bytes.subrange(i, bytes.len() as int)),
    ensures
        !valid_utf8(bytes),
{
    let suffix = bytes.subrange(i, bytes.len() as int);
    assert(!valid_utf8(suffix));
    partial_valid_partial_invalid_utf8(bytes, i);
}

/// Decides whether the given bytes are a valid UTF-8 encoding, in the
/// exact sense of `vstd::utf8::valid_utf8`: well-formed leading and
/// continuation bytes, no overlong encodings, no surrogate codepoints.
pub fn utf8_valid(bytes: &Vec<u8>) -> (b: bool)
    ensures
        b == valid_utf8(bytes@),
{
    let n = bytes.len();
    let mut i: usize = 0;
    while i < n
        invariant
            i <= n,
            n == bytes@.len(),
            partial_valid_utf8(bytes@, i as int),
        decreases n - i,
    {
        let ghost suffix = bytes@.subrange(i as int, n as int);
        let b0 = bytes[i];
        if b0 < 0x80 {
            proof {
                lemma_bv_width_1(b0);
                assert(valid_first_scalar(suffix));
                partial_valid_utf8_extend(bytes@, i as int);
            }
            i = i + 1;
        } else if b0 < 0xc2 {
            // A continuation byte in leading position, or the overlong
            // leading bytes 0xc0 and 0xc1: no valid scalar starts so.
            proof {
                if valid_leading_and_continuation_bytes_first_codepoint(suffix) {
                    lemma_bv_width_2_overlong(b0, suffix[1]);
                }
                lemma_invalid_at(bytes@, i as int);
            }
            return false;
        } else if b0 < 0xe0 {
            if n - i < 2 {
                proof {
                    lemma_invalid_at(bytes@, i as int);
                }
                return false;
            }
            let b1 = bytes[i + 1];
            if !(0x80 <= b1 && b1 <= 0xbf) {
                proof {
                    lemma_invalid_at(bytes@, i as int);
                }
                return false;
            }
            proof {
                lemma_bv_width_2(b0, b1);
                assert(valid_first_scalar(suffix));
                partial_valid_utf8_extend(bytes@, i as int);
            }
            i = i + 2;
        } else if b0 < 0xf0 {
            if n - i < 3 {
                proof {
                    lemma_invalid_at(bytes@, i as int);
                }
                return false;
            }
            let b1 = bytes[i + 1];
            let b2 = bytes[i + 2];
            if !(0x80 <= b1 && b1 <= 0xbf) || !(0x80 <= b2 && b2 <= 0xbf) {
                proof {
                    lemma_invalid_at(bytes@, i as int);
                }
                return false;
            }
            if b0 == 0xe0 && b1 < 0xa0 {
                proof {
                    lemma_bv_width_3_overlong(b0, b1, b2);
                    lemma_invalid_at(bytes@, i as int);
                }
                return false;
            }
            if b0 == 0xed && b1 >= 0xa0 {
                proof {
                    lemma_bv_width_3_surrogate(b0, b1, b2);
                    lemma_invalid_at(bytes@, i as int);
                }
                return false;
            }
            proof {
                lemma_bv_width_3(b0, b1, b2);
                assert(valid_first_scalar(suffix));
                partial_valid_utf8_extend(bytes@, i as int);
            }
            i = i + 3;
        } else if b0 < 0xf8 {
            if n - i < 4 {
                proof {
                    lemma_invalid_at(bytes@, i as int);
                }
                return false;
            }
            let b1 = bytes[i + 1];
            let b2 = bytes[i + 2];
            let b3 = bytes[i + 3];
            if !(0x80 <= b1 && b1 <= 0xbf) || !(0x80 <= b2 && b2 <= 0xbf) || !(0x80 <= b3 && b3
                <= 0xbf) {
                proof {
                    lemma_invalid_at(bytes@, i as int);
                }
                return false;
            }
            if b0 == 0xf0 && b1 < 0x90 {
                proof {
                    lemma_bv_width_4_overlong(b0, b1, b2, b3);
                    lemma_invalid_at(bytes@, i as int);
                }
                return false;
            }
            if b0 >= 0xf5 || (b0 == 0xf4 && b1 >= 0x90) {
                proof {
                    lemma_bv_width_4_beyond(b0, b1, b2, b3);
                    lemma_invalid_at(bytes@, i as int);
                }
                return false;
            }
            proof {
                lemma_bv_width_4(b0, b1, b2, b3);
                assert(valid_first_scalar(suffix));
                partial_valid_utf8_extend(bytes@, i as int);
            }
            i = i + 4;
        } else {
            // 0xf8 and above lead no encoding at all.
            proof {
                lemma_invalid_at(bytes@, i as int);
            }
            return false;
        }
    }
    proof {
        assert(bytes@.subrange(0, n as int) =~= bytes@);
    }
    true
}

} // verus!

use crate::MarshalError;
use vstd::prelude::*;
use vstd::string::StrSliceExecFns;
use vstd::string::StringSliceAdditionalSpecFns;
use vstd::utf8::*;

verus! {

/// A null-terminated byte buffer carrying the UTF-8 bytes of a realm name
/// across the foreign boundary. It is owned by the caller, not by the
/// foreign allocator: its lifetime is the single foreign call that reads
/// it, and it is dropped here once that call returns.
#[derive(Debug)]
pub struct CBuffer {
    bytes: Vec<u8>,
}

impl View for CBuffer {
    type V = Seq<u8>;

    closed spec fn view(&self) -> Seq<u8> {
        self.bytes@
    }
}

impl CBuffer {
    /// The shape a null-terminated buffer must have: at least the
    /// terminator, the terminator last, and no null byte before it.
    pub open spec fn wf(&self) -> bool {
        &&& self@.len() >= 1
        &&& self@.last() == 0
        &&& forall|i: int| 0 <= i < self@.len() - 1 ==> self@[i] != 0
    }

    /// The buffer's bytes, terminator included: what the foreign call reads.
    pub fn as_bytes(&self) -> (r: &Vec<u8>)
        ensures
            r@ == self@,
    {
        &self.bytes
    }
}

/// The Encoder: turns an owned text value into the null-terminated buffer
/// a foreign call consumes. It succeeds exactly when the text holds no
/// null character — equivalently, when its UTF-8 bytes hold no null byte —
/// and the produced buffer is those bytes followed by the terminator:
/// nothing dropped, nothing changed.
pub fn encode_realm(realm: String) -> (r: Result<CBuffer, MarshalError>)
    ensures
        (r is Ok) == !realm@.contains('\0'),
        match r {
            Ok(buf) => {
                &&& !encode_utf8(realm@).contains(0u8)
                &&& buf@ == encode_utf8(realm@).push(0u8)
                &&& buf.wf()
            },
            Err(e) => {
                &&& e == MarshalError::Encoding
                &&& encode_utf8(realm@).contains(0u8)
            },
        },
{
    let bytes: Vec<u8> = realm.as_str().as_bytes_vec();
    let mut out: Vec<u8> = Vec::new();
    let mut i: usize = 0;
    while i < bytes.len()
        invariant
            i <= bytes@.len(),
            bytes@ == encode_utf8(realm@),
            out@ == bytes@.subrange(0, i as int),
            forall|k: int| 0 <= k < i ==> bytes@[k] != 0,
        decreases bytes@.len() - i,
    {
        let b = bytes[i];
        if b == 0 {
            proof {
                assert(encode_utf8(realm@)[i as int] == 0);
                lemma_nul_byte_iff_nul_char(realm@);
            }
            return Err(MarshalError::Encoding);
        }
        out.push(b);
        i = i + 1;
    }
    out.push(0);
    proof {
        assert(bytes@.subrange(0, bytes@.len() as int) =~= bytes@);
        assert(out@ =~= encode_utf8(realm@).push(0u8));
        lemma_nul_byte_iff_nul_char(realm@);
    }
    Ok(CBuffer { bytes: out })
}

proof fn lemma_bv_width_1_zero(s: u32)
    by (bit_vector)
    requires
        s <= 0x7f,
    ensures
        (((s & 0x7F) as u8) == 0) == (s == 0),
{
}

proof fn lemma_bv_encoded_bytes_nonzero(s: u32)
    by (bit_vector)
    ensures
        (0xC0u8 | (((s >> 6) & 0x1F) as u8)) != 0,
        (0xE0u8 | (((s >> 12) & 0x0F) as u8)) != 0,
        (0xF0u8 | (((s >> 18) & 0x7) as u8)) != 0,
        (0x80u8 | ((s & 0x3F) as u8)) != 0,
        (0x80u8 | (((s >> 6) & 0x3F) as u8)) != 0,
        (0x80u8 | (((s >> 12) & 0x3F) as u8)) != 0,
{
}

// The encoding of a single scalar holds a null byte exactly when the
// scalar is the null character itself: a one-byte encoding is the scalar's
// own low bits, and every byte of a longer encoding has a high bit set.
proof fn lemma_encode_scalar_zero(s: u32)
    requires
        is_scalar(s),
    ensures
        encode_scalar(s).contains(0u8) <==> s == 0,
{
    if has_width_1_encoding(s) {
        lemma_bv_width_1_zero(s);
        if s == 0 {
            assert(encode_scalar(s)[0] == 0u8);
        } else {
            assert(forall|i: int| 0 <= i < encode_scalar(s).len() ==> encode_scalar(s)[i] != 0u8);
        }
    } else {
        lemma_bv_encoded_bytes_nonzero(s);
        assert(forall|i: int| 0 <= i < encode_scalar(s).len() ==> encode_scalar(s)[i] != 0u8);
    }
}

/// The law behind the Encoder's only failure mode: a text's UTF-8 bytes
/// hold a null byte exactly when the text holds the null character. So
/// [`encode_realm`] fails on exactly the realm names with an embedded null
/// character, and on no others.
pub proof fn lemma_nul_byte_iff_nul_char(text: Seq<char>)
    ensures
        encode_utf8(text).contains(0u8) <==> text.contains('\0'),
    decreases text.len(),
{
    if text.len() > 0 {
        let c = text[0];
        let head = encode_scalar(c as u32);
        let tail = encode_utf8(text.drop_first());
        char_is_scalar(c);
        lemma_encode_scalar_zero(c as u32);
        lemma_nul_byte_iff_nul_char(text.drop_first());
        assert(encode_utf8(text) == head + tail);
        assert((head + tail).contains(0u8) <==> head.contains(0u8) || tail.contains(0u8)) by {
            if (head + tail).contains(0u8) {
                let i = choose|i: int|
                    0 <= i < (head + tail).len() && (head + tail)[i] == 0u8;
                if i < head.len() {
                    assert(head[i] == 0u8);
                } else {
                    assert(tail[i - head.len()] == 0u8);
                }
            }
            if head.contains(0u8) {
                let i = choose|i: int| 0 <= i < head.len() && head[i] == 0u8;
                assert((head + tail)[i] == 0u8);
            }
            if tail.contains(0u8) {
                let i = choose|i: int| 0 <= i < tail.len() && tail[i] == 0u8;
                assert((head + tail)[head.len() + i] == 0u8);
            }
        }
        if c as u32 == 0 {
            char_u32_cast(c, 0u32);
            assert(0u32 as char == '\0');
        }
        assert(('\0' as u32) == 0);
        assert(text.contains('\0') <==> (c == '\0' || text.drop_first().contains('\0'))) by {
            if text.contains('\0') {
                let i = choose|i: int| 0 <= i < text.len() && text[i] == '\0';
                if i > 0 {
                    assert(text.drop_first()[i - 1] == '\0');
                }
            }
            if text.drop_first().contains('\0') {
                let i = choose|i: int|
                    0 <= i < text.drop_first().len() && text.drop_first()[i] == '\0';
                assert(text[i + 1] == '\0');
            }
        }
    }
}

} // verus!

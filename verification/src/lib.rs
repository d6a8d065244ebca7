//! Safe marshalling around a native Kerberos credential-cache inspector.
//!
//! The native library answers three questions: whether any realm holds a
//! valid credential, whether a given realm does, and which principal owns
//! the credential for a realm. All data crosses that boundary as
//! null-terminated byte buffers, and buffers coming back are owned by the
//! native allocator until explicitly released. This crate holds the part of
//! that traffic that has invariants worth proving:
//!
//! - [`encode_realm`] builds the null-terminated buffer for an outgoing
//!   realm name, rejecting text with an embedded null byte;
//! - [`reclaim_text`] turns the reply of a username lookup back into owned
//!   text, validating it as UTF-8 and deciding exactly when the foreign
//!   release entry point must be invoked;
//! - [`authenticated`] interprets the integer sentinel of the two
//!   credential checks.
//!
//! The raw calls themselves live outside this crate; they hand plain byte
//! buffers in and take plain values back.

mod decode;
mod encode;
mod validate;

pub use decode::{c_str_contents, c_str_len, reclaim_text, ForeignBuffer, Handle, Presence,
    Reclaimed};
pub use encode::{encode_realm, lemma_nul_byte_iff_nul_char, CBuffer};
pub use validate::utf8_valid;

use vstd::prelude::*;
use vstd::utf8::{decode_utf8, encode_utf8, encode_utf8_decode_utf8, encode_utf8_valid_utf8,
    valid_utf8};

verus! {

/// A failure while moving text across the foreign boundary.
#[derive(Clone, Copy, Debug, PartialEq, Eq, Structural)]
pub enum MarshalError {
    /// The caller's text holds an embedded null byte and cannot become a
    /// null-terminated buffer.
    Encoding,
    /// The native library handed back bytes that are not valid UTF-8 text.
    Decoding,
}

/// Interprets the integer sentinel of the native credential checks:
/// 1 means an authenticated credential exists, every other value means none.
pub fn authenticated(code: i32) -> (b: bool)
    ensures
        b == (code == 1),
{
    code == 1
}

/// Round-trip fidelity across the boundary: a text without the null
/// character encodes into a buffer whose contents, up to the terminator,
/// are exactly the text's UTF-8 bytes — and reclaiming such a buffer
/// validates and decodes back to the very same text. Put together with
/// the contracts of [`encode_realm`] and [`reclaim_text`]: what the
/// Encoder accepts, the Decoder/Reclaimer gives back unchanged.
pub proof fn lemma_encode_reclaim_round_trip(text: Seq<char>)
    requires
        !text.contains('\0'),
    ensures
        !encode_utf8(text).contains(0u8),
        c_str_contents(encode_utf8(text).push(0u8)) == encode_utf8(text),
        valid_utf8(encode_utf8(text)),
        decode_utf8(encode_utf8(text)) == text,
{
    lemma_nul_byte_iff_nul_char(text);
    let e = encode_utf8(text);
    let b = e.push(0u8);
    assert(forall|k: int| 0 <= k < b.len() - 1 ==> b[k] != 0u8) by {
        assert(forall|k: int| 0 <= k < e.len() ==> e[k] != 0u8);
    }
    decode::lemma_c_str_len_at(b, e.len() as int);
    assert(b.take(e.len() as int) =~= e);
    encode_utf8_valid_utf8(text);
    encode_utf8_decode_utf8(text);
}

} // verus!

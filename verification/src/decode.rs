use crate::MarshalError;
use vstd::prelude::*;
use vstd::utf8::{decode_utf8, valid_utf8};

verus! {

/// The contents of an allocation owned by the foreign allocator: the bytes
/// found at a non-null pointer a lookup returned, copied once, terminator
/// and all. The type has no `Clone`, so a value of it is consumed by
/// exactly one reclaim.
pub struct ForeignBuffer {
    bytes: Vec<u8>,
}

impl View for ForeignBuffer {
    type V = Seq<u8>;

    closed spec fn view(&self) -> Seq<u8> {
        self.bytes@
    }
}

impl ForeignBuffer {
    /// Wraps the copied bytes of one foreign allocation.
    pub fn new(bytes: Vec<u8>) -> (r: ForeignBuffer)
        ensures
            r@ == bytes@,
    {
        ForeignBuffer { bytes }
    }
}

/// What a username lookup hands back across the boundary: either the
/// null-pointer sentinel meaning "no matching credential", or a handle to
/// a buffer the foreign allocator owns until it is released.
pub enum Handle {
    /// The absence sentinel. Nothing was allocated; nothing may be released.
    Null,
    /// A live foreign allocation, to be released exactly once.
    Buffer(ForeignBuffer),
}

impl View for Handle {
    type V = Option<Seq<u8>>;

    open spec fn view(&self) -> Option<Seq<u8>> {
        match self {
            Handle::Null => None,
            Handle::Buffer(b) => Some(b@),
        }
    }
}

/// The two-variant outcome of a successful lookup: a principal's name, or
/// no authenticated principal for the realm. Kept apart from the error
/// type so that "absent" can never be mistaken for a failure.
#[derive(Debug)]
pub enum Presence {
    Present(String),
    Absent,
}

/// What one reclaim did: the typed result, and how many times the foreign
/// release entry point must now be invoked for the handle that went in.
pub struct Reclaimed {
    pub outcome: Result<Presence, MarshalError>,
    pub releases: usize,
}

/// The length of the null-terminated contents of a foreign buffer: the
/// index of the first null byte, or the whole length where none occurs.
pub open spec fn c_str_len(bytes: Seq<u8>) -> int
    decreases bytes.len(),
{
    if bytes.len() == 0 {
        0
    } else if bytes[0] == 0 {
        0
    } else {
        1 + c_str_len(bytes.drop_first())
    }
}

/// The bytes of a foreign buffer up to (and not including) its first null
/// byte: what the buffer's text is made of.
pub open spec fn c_str_contents(bytes: Seq<u8>) -> Seq<u8> {
    bytes.take(c_str_len(bytes))
}

pub(crate) proof fn lemma_c_str_len_at(bytes: Seq<u8>, i: int)
    requires
        0 <= i <= bytes.len(),
        forall|k: int| 0 <= k < i ==> bytes[k] != 0,
        i == bytes.len() || bytes[i] == 0,
    ensures
        c_str_len(bytes) == i,
    decreases i,
{
    if i > 0 {
        assert(forall|k: int| 0 <= k < i - 1 ==> bytes.drop_first()[k] == bytes[k + 1]);
        lemma_c_str_len_at(bytes.drop_first(), i - 1);
    }
}

/// Scans a foreign buffer's bytes up to the first null byte and copies
/// them into an owned buffer.
fn scan_contents(bytes: &Vec<u8>) -> (r: Vec<u8>)
    ensures
        r@ == c_str_contents(bytes@),
{
    let mut out: Vec<u8> = Vec::new();
    let mut i: usize = 0;
    while i < bytes.len()
        invariant
            i <= bytes@.len(),
            out@ == bytes@.subrange(0, i as int),
            forall|k: int| 0 <= k < i ==> bytes@[k] != 0,
        decreases bytes@.len() - i,
    {
        let b = bytes[i];
        if b == 0 {
            proof {
                lemma_c_str_len_at(bytes@, i as int);
            }
            return out;
        }
        out.push(b);
        i = i + 1;
    }
    proof {
        lemma_c_str_len_at(bytes@, bytes@.len() as int);
    }
    out
}

/// Relies on `String::from_utf8`: on bytes that are valid UTF-8 it returns
/// `Ok` with the text those bytes decode to, exactly as `vstd::utf8`
/// states decoding.
#[verifier::external_body]
fn string_of_utf8(bytes: Vec<u8>) -> (r: String)
    requires
        valid_utf8(bytes@),
    ensures
        r@ == decode_utf8(bytes@),
{
    match String::from_utf8(bytes) {
        Ok(s) => s,
        Err(_) => String::new(),
    }
}

/// The Decoder/Reclaimer: consumes the reply of a username lookup and
/// produces the typed outcome.
///
/// The absence sentinel becomes `Ok(Absent)` with no release owed: nothing
/// was allocated. A buffer handle is scanned up to its first null byte and
/// the bytes validated as UTF-8: valid bytes become `Ok(Present(text))`,
/// anything else `Err(Decoding)`. The release policy is unconditional:
/// every buffer handle owes exactly one release, whether or not its bytes
/// decoded — the bytes are copied before the decision, so the allocation
/// is never read again either way, and never released twice.
pub fn reclaim_text(handle: Handle) -> (r: Reclaimed)
    ensures
        handle@ is None ==> r.outcome == Ok::<Presence, MarshalError>(Presence::Absent)
            && r.releases == 0,
        handle@ matches Some(bs) ==> {
            &&& r.releases == 1
            &&& valid_utf8(c_str_contents(bs)) ==> {
                &&& r.outcome is Ok
                &&& r.outcome->Ok_0 is Present
                &&& r.outcome->Ok_0->Present_0@ == decode_utf8(c_str_contents(bs))
            }
            &&& !valid_utf8(c_str_contents(bs)) ==> r.outcome == Err::<Presence, MarshalError>(
                MarshalError::Decoding,
            )
        },
{
    match handle {
        Handle::Null => Reclaimed { outcome: Ok(Presence::Absent), releases: 0 },
        Handle::Buffer(buf) => {
            let contents = scan_contents(&buf.bytes);
            if crate::validate::utf8_valid(&contents) {
                let text = string_of_utf8(contents);
                Reclaimed { outcome: Ok(Presence::Present(text)), releases: 1 }
            } else {
                Reclaimed { outcome: Err(MarshalError::Decoding), releases: 1 }
            }
        },
    }
}

} // verus!

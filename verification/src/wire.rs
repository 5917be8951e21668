//! Minimal hand-rolled byte serialization for remote sub-Apps.
//!
//! Coupling crates stay wire-agnostic: packing is opted into per type in the
//! binary that wires up the remote coupling, by implementing [`Wire`]. The
//! library implements it for the integer types, `bool` and `String`, and
//! provides the framing for floating-point payloads as raw IEEE-754 bit
//! patterns (`[u64]`), which the float types convert to and from.
//!
//! Every format is little-endian. `try_unpack` consumes the entire slice: the
//! transport message boundary is the unit of work.

use crate::codec::{append_bytes, append_u64_le, lemma_u64_at_encoding, u64_at, u64_le_at};
use crate::text::{decimal, join, owned, render_u64, render_usize};
use vstd::bytes::{spec_u32_from_le_bytes, spec_u32_to_le_bytes, spec_u64_from_le_bytes, spec_u64_to_le_bytes};
use vstd::prelude::*;
use vstd::utf8::{decode_utf8, encode_utf8, valid_utf8};

verus! {

broadcast use {vstd::utf8::encode_utf8_valid_utf8, vstd::utf8::encode_utf8_decode_utf8};

// ─── WireUnpackError ────────────────────────────────────────────────────────

/// Error returned when a [`Wire`] payload cannot be decoded as the requested
/// type.
#[derive(Debug, Clone, PartialEq, Eq)]
pub struct WireUnpackError {
    type_label: &'static str,
    payload_len: usize,
    detail: String,
}

/// Mathematical model of a [`WireUnpackError`].
pub struct WireUnpackFault {
    pub type_label: Seq<char>,
    pub payload_len: usize,
    pub detail: Seq<char>,
}

impl View for WireUnpackError {
    type V = WireUnpackFault;

    closed spec fn view(&self) -> WireUnpackFault {
        WireUnpackFault {
            type_label: self.type_label@,
            payload_len: self.payload_len,
            detail: self.detail@,
        }
    }
}

impl WireUnpackError {
    /// Build an error for the type named `type_label` from a payload length
    /// and short explanation.
    pub fn new(type_label: &'static str, payload_len: usize, detail: &str) -> (e: Self)
        ensures
            e@ == (WireUnpackFault { type_label: type_label@, payload_len, detail: detail@ }),
    {
        WireUnpackError { type_label, payload_len, detail: owned(detail) }
    }

    fn with_detail(type_label: &'static str, payload_len: usize, detail: String) -> (e: Self)
        ensures
            e@ == (WireUnpackFault { type_label: type_label@, payload_len, detail: detail@ }),
    {
        WireUnpackError { type_label, payload_len, detail }
    }

    /// Rust type the caller attempted to unpack.
    pub fn type_label(&self) -> (s: &'static str)
        ensures
            s@ == self@.type_label,
    {
        self.type_label
    }

    /// Number of bytes in the payload that failed to decode.
    pub fn payload_len(&self) -> (n: usize)
        ensures
            n == self@.payload_len,
    {
        self.payload_len
    }

    /// Human-readable reason the payload failed to decode.
    pub fn detail(&self) -> (s: &str)
        ensures
            s@ == self@.detail,
    {
        self.detail.as_str()
    }

    /// The diagnostic text:
    /// `"cannot unpack {type} from {len} byte payload: {detail}"`.
    pub fn message(&self) -> (s: String)
        ensures
            s@ == "cannot unpack "@ + self@.type_label + " from "@ + decimal(
                self@.payload_len as nat,
            ) + " byte payload: "@ + self@.detail,
    {
        let s = join(owned("cannot unpack "), self.type_label);
        let s = join(s, " from ");
        let s = join(s, render_usize(self.payload_len).as_str());
        let s = join(s, " byte payload: ");
        join(s, self.detail.as_str())
    }
}

/// The detail of a fixed-size payload of the wrong length.
pub open spec fn exact_len_detail(expected: nat) -> Seq<char> {
    "expected exactly "@ + decimal(expected) + " bytes"@
}

/// The detail of a payload too short to hold its length header.
pub open spec fn short_header_detail() -> Seq<char> {
    "expected 4 byte little-endian length header"@
}

/// Outcome of decoding: the value, or the error's model.
pub type WireOutcome<T> = Result<T, WireUnpackFault>;

/// The error a fixed-size decode reports for a payload of the wrong length.
pub open spec fn wrong_len(label: Seq<char>, buf: Seq<u8>, expected: nat) -> WireUnpackFault {
    WireUnpackFault {
        type_label: label,
        payload_len: buf.len() as usize,
        detail: exact_len_detail(expected),
    }
}

fn require_len(buf: &[u8], expected: usize, type_label: &'static str) -> (r: Result<(), WireUnpackError>)
    ensures
        r is Ok <==> buf@.len() == expected,
        r matches Err(e) ==> e@ == wrong_len(type_label@, buf@, expected as nat),
{
    if buf.len() == expected {
        Ok(())
    } else {
        let d = join(owned("expected exactly "), render_usize(expected).as_str());
        let d = join(d, " bytes");
        Err(WireUnpackError::with_detail(type_label, buf.len(), d))
    }
}

fn read_u32_len(buf: &[u8], type_label: &'static str) -> (r: Result<usize, WireUnpackError>)
    ensures
        r is Ok <==> buf@.len() >= 4,
        r matches Ok(n) ==> n == spec_u32_from_le_bytes(buf@.subrange(0, 4)),
        r matches Err(e) ==> e@ == (WireUnpackFault {
            type_label: type_label@,
            payload_len: buf@.len() as usize,
            detail: short_header_detail(),
        }),
{
    if buf.len() < 4 {
        return Err(
            WireUnpackError::new(type_label, buf.len(), "expected 4 byte little-endian length header"),
        );
    }
    let head = vstd::slice::slice_subrange(buf, 0, 4);
    let n = vstd::bytes::u32_from_le_bytes(head);
    Ok(n as usize)
}

// ─── The Wire trait ─────────────────────────────────────────────────────────

/// Pack a value into bytes and recover it later. Hand-rolled per type.
///
/// `pack` produces an owned `Vec<u8>` ready to hand to a transport;
/// `try_unpack` consumes the entire slice and returns a diagnostic instead of
/// panicking on malformed bytes.
pub trait Wire: Sized {
    /// Serialise this value into a fresh byte buffer.
    fn pack(&self) -> Vec<u8>;

    /// Reconstruct a value from a buffer produced by [`pack`](Self::pack).
    fn try_unpack(buf: &[u8]) -> Result<Self, WireUnpackError>;
}

/// A decode result with the error replaced by its model.
pub open spec fn outcome<T>(r: Result<T, WireUnpackError>) -> WireOutcome<T> {
    match r {
        Ok(v) => Ok(v),
        Err(e) => Err(e@),
    }
}

// ─── Fixed-width integers ───────────────────────────────────────────────────

/// Decoding a `u64`: exactly 8 little-endian bytes.
pub open spec fn unpack_u64_outcome(buf: Seq<u8>) -> WireOutcome<u64> {
    if buf.len() != 8 {
        Err(wrong_len("u64"@, buf, 8))
    } else {
        Ok(spec_u64_from_le_bytes(buf))
    }
}

/// Decoding an `i64`: exactly 8 little-endian two's-complement bytes.
pub open spec fn unpack_i64_outcome(buf: Seq<u8>) -> WireOutcome<i64> {
    if buf.len() != 8 {
        Err(wrong_len("i64"@, buf, 8))
    } else {
        Ok(spec_u64_from_le_bytes(buf) as i64)
    }
}

/// Decoding a `u32`: exactly 4 little-endian bytes.
pub open spec fn unpack_u32_outcome(buf: Seq<u8>) -> WireOutcome<u32> {
    if buf.len() != 4 {
        Err(wrong_len("u32"@, buf, 4))
    } else {
        Ok(spec_u32_from_le_bytes(buf))
    }
}

/// Decoding an `i32`: exactly 4 little-endian two's-complement bytes.
pub open spec fn unpack_i32_outcome(buf: Seq<u8>) -> WireOutcome<i32> {
    if buf.len() != 4 {
        Err(wrong_len("i32"@, buf, 4))
    } else {
        Ok(spec_u32_from_le_bytes(buf) as i32)
    }
}

impl Wire for u64 {
    fn pack(&self) -> (r: Vec<u8>)
        ensures
            r@ == spec_u64_to_le_bytes(*self),
    {
        vstd::bytes::u64_to_le_bytes(*self)
    }

    fn try_unpack(buf: &[u8]) -> (r: Result<u64, WireUnpackError>)
        ensures
            outcome(r) == unpack_u64_outcome(buf@),
    {
        match require_len(buf, 8, "u64") {
            Err(e) => Err(e),
            Ok(()) => Ok(vstd::bytes::u64_from_le_bytes(buf)),
        }
    }
}

impl Wire for i64 {
    fn pack(&self) -> (r: Vec<u8>)
        ensures
            r@ == spec_u64_to_le_bytes(*self as u64),
    {
        vstd::bytes::u64_to_le_bytes(*self as u64)
    }

    fn try_unpack(buf: &[u8]) -> (r: Result<i64, WireUnpackError>)
        ensures
            outcome(r) == unpack_i64_outcome(buf@),
    {
        match require_len(buf, 8, "i64") {
            Err(e) => Err(e),
            Ok(()) => Ok(vstd::bytes::u64_from_le_bytes(buf) as i64),
        }
    }
}

impl Wire for u32 {
    fn pack(&self) -> (r: Vec<u8>)
        ensures
            r@ == spec_u32_to_le_bytes(*self),
    {
        vstd::bytes::u32_to_le_bytes(*self)
    }

    fn try_unpack(buf: &[u8]) -> (r: Result<u32, WireUnpackError>)
        ensures
            outcome(r) == unpack_u32_outcome(buf@),
    {
        match require_len(buf, 4, "u32") {
            Err(e) => Err(e),
            Ok(()) => Ok(vstd::bytes::u32_from_le_bytes(buf)),
        }
    }
}

impl Wire for i32 {
    fn pack(&self) -> (r: Vec<u8>)
        ensures
            r@ == spec_u32_to_le_bytes(*self as u32),
    {
        vstd::bytes::u32_to_le_bytes(*self as u32)
    }

    fn try_unpack(buf: &[u8]) -> (r: Result<i32, WireUnpackError>)
        ensures
            outcome(r) == unpack_i32_outcome(buf@),
    {
        match require_len(buf, 4, "i32") {
            Err(e) => Err(e),
            Ok(()) => Ok(vstd::bytes::u32_from_le_bytes(buf) as i32),
        }
    }
}

// ─── bool ───────────────────────────────────────────────────────────────────

/// The encoding of a `bool`: one byte, `1` for true and `0` for false.
pub open spec fn bool_bytes(b: bool) -> Seq<u8> {
    if b {
        seq![1u8]
    } else {
        seq![0u8]
    }
}

/// Decoding a `bool`: exactly one byte, which must be `0` or `1`.
pub open spec fn unpack_bool_outcome(buf: Seq<u8>) -> WireOutcome<bool> {
    if buf.len() != 1 {
        Err(wrong_len("bool"@, buf, 1))
    } else if buf[0] == 0 {
        Ok(false)
    } else if buf[0] == 1 {
        Ok(true)
    } else {
        Err(
            WireUnpackFault {
                type_label: "bool"@,
                payload_len: 1,
                detail: "expected bool byte 0 or 1, found "@ + decimal(buf[0] as nat),
            },
        )
    }
}

impl Wire for bool {
    fn pack(&self) -> (r: Vec<u8>)
        ensures
            r@ == bool_bytes(*self),
    {
        let mut v: Vec<u8> = Vec::new();
        if *self {
            v.push(1);
        } else {
            v.push(0);
        }
        v
    }

    fn try_unpack(buf: &[u8]) -> (r: Result<bool, WireUnpackError>)
        ensures
            outcome(r) == unpack_bool_outcome(buf@),
    {
        match require_len(buf, 1, "bool") {
            Err(e) => Err(e),
            Ok(()) => {
                let b = buf[0];
                if b == 0 {
                    Ok(false)
                } else if b == 1 {
                    Ok(true)
                } else {
                    let d = join(
                        owned("expected bool byte 0 or 1, found "),
                        render_u64(b as u64).as_str(),
                    );
                    Err(WireUnpackError::with_detail("bool", buf.len(), d))
                }
            },
        }
    }
}

// ─── String ─────────────────────────────────────────────────────────────────

/// `String::from_utf8`: succeeds exactly when the bytes are valid UTF-8, with
/// the decoded characters; otherwise the text of std's `Utf8Error`, whose
/// wording is std's and is not stated.
#[verifier::external_body]
fn string_from_utf8(bytes: Vec<u8>) -> (r: Result<String, String>)
    ensures
        r is Ok <==> valid_utf8(bytes@),
        r matches Ok(s) ==> s@ == decode_utf8(bytes@),
{
    String::from_utf8(bytes).map_err(|error| error.to_string())
}

/// The encoding of a string: `[u32 byte length LE | UTF-8 bytes]`.
pub open spec fn string_bytes(s: Seq<char>) -> Seq<u8> {
    spec_u32_to_le_bytes(encode_utf8(s).len() as u32) + encode_utf8(s)
}

/// The detail for a string payload whose length disagrees with its header.
pub open spec fn string_len_detail(n: nat, expected: nat) -> Seq<char> {
    "length header declares "@ + decimal(n) + " UTF-8 bytes ("@ + decimal(expected)
        + " bytes total)"@
}

/// The text every non-UTF-8 string payload detail starts with.
pub open spec fn not_utf8_prefix() -> Seq<char> {
    "declared bytes are not UTF-8: "@
}

/// Decoding a string: a 4-byte length header, then exactly that many bytes of
/// valid UTF-8. `Ok(None)` stands for "the bytes are not UTF-8", whose
/// detail text is std's.
pub open spec fn unpack_string_outcome(buf: Seq<u8>) -> WireOutcome<Option<Seq<char>>> {
    let label = "alloc::string::String"@;
    if buf.len() < 4 {
        Err(WireUnpackFault { type_label: label, payload_len: buf.len() as usize, detail: short_header_detail() })
    } else {
        let n = spec_u32_from_le_bytes(buf.subrange(0, 4)) as nat;
        if 4 + n > usize::MAX {
            Err(
                WireUnpackFault {
                    type_label: label,
                    payload_len: buf.len() as usize,
                    detail: "payload length overflows usize"@,
                },
            )
        } else if buf.len() != 4 + n {
            Err(
                WireUnpackFault {
                    type_label: label,
                    payload_len: buf.len() as usize,
                    detail: string_len_detail(n, 4 + n),
                },
            )
        } else if valid_utf8(buf.subrange(4, buf.len() as int)) {
            Ok(Some(decode_utf8(buf.subrange(4, buf.len() as int))))
        } else {
            Ok(None)
        }
    }
}

impl Wire for String {
    fn pack(&self) -> (r: Vec<u8>)
        ensures
            r@ == string_bytes(self@),
    {
        let bytes = self.as_str().as_bytes();
        let mut out = vstd::bytes::u32_to_le_bytes(bytes.len() as u32);
        append_bytes(&mut out, bytes);
        out
    }

    fn try_unpack(buf: &[u8]) -> (r: Result<String, WireUnpackError>)
        ensures
            match unpack_string_outcome(buf@) {
                Ok(Some(s)) => r matches Ok(v) && v@ == s,
                Ok(None) => r matches Err(e) && e@.type_label == "alloc::string::String"@
                    && e@.payload_len == buf@.len() && e@.detail.len() >= not_utf8_prefix().len()
                    && e@.detail.subrange(0, not_utf8_prefix().len() as int) == not_utf8_prefix(),
                Err(f) => r matches Err(e) && e@ == f,
            },
    {
        let label = "alloc::string::String";
        let n = match read_u32_len(buf, label) {
            Ok(n) => n,
            Err(e) => return Err(e),
        };
        let expected = match n.checked_add(4) {
            Some(x) => x,
            None => return Err(WireUnpackError::new(label, buf.len(), "payload length overflows usize")),
        };
        if buf.len() != expected {
            let d = join(owned("length header declares "), render_usize(n).as_str());
            let d = join(d, " UTF-8 bytes (");
            let d = join(d, render_usize(expected).as_str());
            let d = join(d, " bytes total)");
            return Err(WireUnpackError::with_detail(label, buf.len(), d));
        }
        let body = vstd::slice::slice_to_vec(vstd::slice::slice_subrange(buf, 4, buf.len()));
        match string_from_utf8(body) {
            Ok(s) => Ok(s),
            Err(reason) => {
                let d = join(owned("declared bytes are not UTF-8: "), reason.as_str());
                assert(d@.subrange(0, not_utf8_prefix().len() as int) =~= not_utf8_prefix());
                Err(WireUnpackError::with_detail(label, buf.len(), d))
            },
        }
    }
}

} // verus!

verus! {

// ─── Floating-point payloads as IEEE-754 bit patterns ───────────────────────

/// The little-endian 8-byte words of `words`, back to back.
pub open spec fn words_bytes(words: Seq<u64>) -> Seq<u8>
    decreases words.len(),
{
    if words.len() == 0 {
        Seq::empty()
    } else {
        words_bytes(words.drop_last()) + spec_u64_to_le_bytes(words.last())
    }
}

/// The encoding of a list of `f64` values given by their bit patterns:
/// `[u32 count LE | count × 8 bytes LE]`.
pub open spec fn f64_list_bytes(words: Seq<u64>) -> Seq<u8> {
    spec_u32_to_le_bytes(words.len() as u32) + words_bytes(words)
}

/// The detail for an `f64` list payload whose length disagrees with its
/// header.
pub open spec fn f64_list_len_detail(n: nat, expected: nat) -> Seq<char> {
    "length header declares "@ + decimal(n) + " f64 values ("@ + decimal(expected)
        + " bytes total)"@
}

/// The 8-byte words of `buf` starting at byte 4.
pub open spec fn words_from(buf: Seq<u8>, count: nat) -> Seq<u64> {
    Seq::new(count, |i: int| u64_at(buf, 4 + 8 * i))
}

/// Decoding an `f64` list (as bit patterns) under the type name `label`.
pub open spec fn unpack_f64_list_outcome(buf: Seq<u8>, label: Seq<char>) -> WireOutcome<Seq<u64>> {
    if buf.len() < 4 {
        Err(WireUnpackFault { type_label: label, payload_len: buf.len() as usize, detail: short_header_detail() })
    } else {
        let n = spec_u32_from_le_bytes(buf.subrange(0, 4)) as nat;
        if 8 * n > usize::MAX {
            Err(
                WireUnpackFault {
                    type_label: label,
                    payload_len: buf.len() as usize,
                    detail: "length header overflows usize"@,
                },
            )
        } else if 4 + 8 * n > usize::MAX {
            Err(
                WireUnpackFault {
                    type_label: label,
                    payload_len: buf.len() as usize,
                    detail: "payload length overflows usize"@,
                },
            )
        } else if buf.len() != 4 + 8 * n {
            Err(
                WireUnpackFault {
                    type_label: label,
                    payload_len: buf.len() as usize,
                    detail: f64_list_len_detail(n, 4 + 8 * n),
                },
            )
        } else {
            Ok(words_from(buf, n))
        }
    }
}

/// Packs a list of `f64` values, given by their IEEE-754 bit patterns
/// (`f64::to_bits`), as `[u32 count LE | count × 8 bytes LE]`.
pub fn pack_f64_bits(words: &[u64]) -> (r: Vec<u8>)
    ensures
        r@ == f64_list_bytes(words@),
{
    let mut out = vstd::bytes::u32_to_le_bytes(words.len() as u32);
    let n = words.len();
    let mut i: usize = 0;
    assert(words@.take(0) =~= Seq::<u64>::empty());
    while i < n
        invariant
            0 <= i <= n,
            n == words@.len(),
            out@ == spec_u32_to_le_bytes(n as u32) + words_bytes(words@.take(i as int)),
        decreases n - i,
    {
        append_u64_le(&mut out, words[i]);
        proof {
            let t = words@.take(i as int + 1);
            assert(t.drop_last() =~= words@.take(i as int));
        }
        i += 1;
    }
    assert(words@.take(n as int) =~= words@);
    out
}

/// Unpacks a list of `f64` bit patterns packed by [`pack_f64_bits`]; errors
/// name the type `type_label`.
pub fn try_unpack_f64_bits(buf: &[u8], type_label: &'static str) -> (r: Result<
    Vec<u64>,
    WireUnpackError,
>)
    ensures
        r matches Err(e) ==> unpack_f64_list_outcome(buf@, type_label@) == Err::<
            Seq<u64>,
            WireUnpackFault,
        >(e@),
        r matches Ok(v) ==> unpack_f64_list_outcome(buf@, type_label@) == Ok::<
            Seq<u64>,
            WireUnpackFault,
        >(v@),
{
    let n = match read_u32_len(buf, type_label) {
        Ok(n) => n,
        Err(e) => return Err(e),
    };
    let body = match n.checked_mul(8) {
        Some(b) => b,
        None => return Err(WireUnpackError::new(type_label, buf.len(), "length header overflows usize")),
    };
    let expected = match body.checked_add(4) {
        Some(x) => x,
        None => return Err(WireUnpackError::new(type_label, buf.len(), "payload length overflows usize")),
    };
    if buf.len() != expected {
        let d = join(owned("length header declares "), render_usize(n).as_str());
        let d = join(d, " f64 values (");
        let d = join(d, render_usize(expected).as_str());
        let d = join(d, " bytes total)");
        return Err(WireUnpackError::with_detail(type_label, buf.len(), d));
    }
    let mut out: Vec<u64> = Vec::new();
    let mut i: usize = 0;
    while i < n
        invariant
            0 <= i <= n,
            buf@.len() == 4 + 8 * n,
            4 + 8 * n <= usize::MAX,
            out@ =~= words_from(buf@, i as nat),
        decreases n - i,
    {
        out.push(u64_le_at(buf, 4 + i * 8));
        i += 1;
    }
    Ok(out)
}

} // verus!

verus! {

/// Unpacks one 8-byte little-endian bit pattern (an `f64` payload); errors
/// name the type `type_label`.
pub fn try_unpack_bits64(buf: &[u8], type_label: &'static str) -> (r: Result<u64, WireUnpackError>)
    ensures
        r is Ok <==> buf@.len() == 8,
        r matches Ok(x) ==> x == spec_u64_from_le_bytes(buf@),
        r matches Err(e) ==> e@ == wrong_len(type_label@, buf@, 8),
{
    match require_len(buf, 8, type_label) {
        Err(e) => Err(e),
        Ok(()) => Ok(vstd::bytes::u64_from_le_bytes(buf)),
    }
}

/// Unpacks one 4-byte little-endian bit pattern (an `f32` payload); errors
/// name the type `type_label`.
pub fn try_unpack_bits32(buf: &[u8], type_label: &'static str) -> (r: Result<u32, WireUnpackError>)
    ensures
        r is Ok <==> buf@.len() == 4,
        r matches Ok(x) ==> x == spec_u32_from_le_bytes(buf@),
        r matches Err(e) ==> e@ == wrong_len(type_label@, buf@, 4),
{
    match require_len(buf, 4, type_label) {
        Err(e) => Err(e),
        Ok(()) => Ok(vstd::bytes::u32_from_le_bytes(buf)),
    }
}

/// Packs three `f64` values, given by their bit patterns, as 24 bytes.
pub fn pack_bit_triple(words: [u64; 3]) -> (r: Vec<u8>)
    ensures
        r@ == words_bytes(words@),
{
    let mut out: Vec<u8> = Vec::new();
    append_u64_le(&mut out, words[0]);
    append_u64_le(&mut out, words[1]);
    append_u64_le(&mut out, words[2]);
    proof {
        let w = words@;
        assert(w.drop_last().drop_last().drop_last() =~= Seq::<u64>::empty());
        assert(w.drop_last().drop_last() =~= seq![w[0]]);
        assert(w.drop_last() =~= seq![w[0], w[1]]);
        reveal_with_fuel(words_bytes, 4);
        assert(words_bytes(w) =~= spec_u64_to_le_bytes(w[0]) + spec_u64_to_le_bytes(w[1])
            + spec_u64_to_le_bytes(w[2]));
    }
    out
}

/// Unpacks three `f64` bit patterns from exactly 24 bytes; errors name the
/// type `type_label`.
pub fn try_unpack_bit_triple(buf: &[u8], type_label: &'static str) -> (r: Result<
    [u64; 3],
    WireUnpackError,
>)
    ensures
        r is Ok <==> buf@.len() == 24,
        r matches Ok(w) ==> w@ == seq![u64_at(buf@, 0), u64_at(buf@, 8), u64_at(buf@, 16)],
        r matches Err(e) ==> e@ == wrong_len(type_label@, buf@, 24),
{
    match require_len(buf, 24, type_label) {
        Err(e) => Err(e),
        Ok(()) => {
            let w = [u64_le_at(buf, 0), u64_le_at(buf, 8), u64_le_at(buf, 16)];
            assert(w@ =~= seq![u64_at(buf@, 0), u64_at(buf@, 8), u64_at(buf@, 16)]);
            Ok(w)
        },
    }
}

// ─── Round trips ────────────────────────────────────────────────────────────

/// Every fixed-width integer and every `bool` decodes to the value it was
/// packed from.
pub proof fn law_fixed_width_round_trip(a: u64, b: i64, c: u32, d: i32, e: bool)
    ensures
        unpack_u64_outcome(spec_u64_to_le_bytes(a)) == Ok::<u64, WireUnpackFault>(a),
        unpack_i64_outcome(spec_u64_to_le_bytes(b as u64)) == Ok::<i64, WireUnpackFault>(b),
        unpack_u32_outcome(spec_u32_to_le_bytes(c)) == Ok::<u32, WireUnpackFault>(c),
        unpack_i32_outcome(spec_u32_to_le_bytes(d as u32)) == Ok::<i32, WireUnpackFault>(d),
        unpack_bool_outcome(bool_bytes(e)) == Ok::<bool, WireUnpackFault>(e),
{
    vstd::bytes::lemma_auto_spec_u64_to_from_le_bytes();
    vstd::bytes::lemma_auto_spec_u32_to_from_le_bytes();
    assert((b as u64) as i64 == b) by (bit_vector);
    assert((d as u32) as i32 == d) by (bit_vector);
}

/// A string decodes to the characters it was packed from, as long as its
/// UTF-8 length fits the 4-byte header and the platform's `usize`.
pub proof fn law_string_round_trip(s: Seq<char>)
    requires
        encode_utf8(s).len() + 4 <= u32::MAX,
        encode_utf8(s).len() + 4 <= usize::MAX,
    ensures
        unpack_string_outcome(string_bytes(s)) == Ok::<Option<Seq<char>>, WireUnpackFault>(Some(s)),
{
    vstd::bytes::lemma_auto_spec_u32_to_from_le_bytes();
    let bytes = encode_utf8(s);
    let buf = string_bytes(s);
    assert(buf.subrange(0, 4) =~= spec_u32_to_le_bytes(bytes.len() as u32));
    assert(buf.subrange(4, buf.len() as int) =~= bytes);
}

proof fn lemma_words_bytes_at(words: Seq<u64>, i: int)
    requires
        0 <= i < words.len(),
    ensures
        words_bytes(words).len() == 8 * words.len(),
        u64_at(words_bytes(words), 8 * i) == words[i],
    decreases words.len(),
{
    vstd::bytes::lemma_auto_spec_u64_to_from_le_bytes();
    let init = words.drop_last();
    if i < words.len() - 1 {
        lemma_words_bytes_at(init, i);
        let w = words_bytes(words);
        assert(w.subrange(8 * i, 8 * i + 8) =~= words_bytes(init).subrange(8 * i, 8 * i + 8));
    } else {
        lemma_words_bytes_len(init);
        lemma_u64_at_encoding(words_bytes(init), words.last(), Seq::empty());
        assert(words_bytes(init) + spec_u64_to_le_bytes(words.last()) + Seq::<u8>::empty()
            =~= words_bytes(words));
    }
}

proof fn lemma_words_bytes_len(words: Seq<u64>)
    ensures
        words_bytes(words).len() == 8 * words.len(),
    decreases words.len(),
{
    vstd::bytes::lemma_auto_spec_u64_to_from_le_bytes();
    if words.len() > 0 {
        lemma_words_bytes_len(words.drop_last());
    }
}

/// A list of `f64` bit patterns decodes to the patterns it was packed from,
/// as long as the count fits the 4-byte header and the platform's `usize`.
pub proof fn law_f64_list_round_trip(words: Seq<u64>, label: Seq<char>)
    requires
        words.len() <= u32::MAX,
        4 + 8 * words.len() <= usize::MAX,
    ensures
        unpack_f64_list_outcome(f64_list_bytes(words), label) == Ok::<Seq<u64>, WireUnpackFault>(
            words,
        ),
{
    vstd::bytes::lemma_auto_spec_u32_to_from_le_bytes();
    lemma_words_bytes_len(words);
    let buf = f64_list_bytes(words);
    let body = words_bytes(words);
    assert(buf.subrange(0, 4) =~= spec_u32_to_le_bytes(words.len() as u32));
    assert forall|i: int| 0 <= i < words.len() implies #[trigger] u64_at(buf, 4 + 8 * i)
        == words[i] by {
        lemma_words_bytes_at(words, i);
        assert(buf.subrange(4 + 8 * i, 4 + 8 * i + 8) =~= body.subrange(8 * i, 8 * i + 8));
    }
    assert(words_from(buf, words.len()) =~= words);
}

} // verus!

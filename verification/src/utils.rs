//! Decoding and encoding of fixed-width, null-terminated, ASCII-only text
//! fields.
//!
//! A fixed-width text field is a byte buffer of format-defined length whose
//! content is the bytes before the first zero byte; the remaining bytes are
//! expected to be zero padding. The strict decoder enforces that convention
//! and the ASCII restriction; the lossy decoder tolerates violations and
//! always produces a string; the encoder writes a string into the leading
//! bytes of a caller-supplied buffer.

use crate::Error;
use vstd::pervasive::VecAdditionalExecFns;
use vstd::prelude::*;
use vstd::slice::slice_to_vec;
use vstd::utf8::{
    codepoint_width_1, decode_utf8, is_leading_byte_width_1, pop_first_scalar, valid_first_scalar,
    valid_utf8,
};

verus! {

/// Index of the first zero byte of `s`, or `s.len()` if `s` has none.
pub open spec fn clip_len(s: Seq<u8>) -> int
    decreases s.len(),
{
    if s.len() == 0 {
        0
    } else if s[0] == 0 {
        0
    } else {
        1 + clip_len(s.drop_first())
    }
}

/// The bytes of `s` before its first zero byte: the candidate text of a
/// fixed-width field.
pub open spec fn clipped(s: Seq<u8>) -> Seq<u8> {
    s.take(clip_len(s))
}

/// True when every byte of `s` from its first zero byte on is zero: the
/// null-padding convention for fixed-width text fields. Holds vacuously
/// when `s` has no zero byte.
pub open spec fn zero_filled(s: Seq<u8>) -> bool {
    forall|i: int| clip_len(s) <= i < s.len() ==> s[i] == 0
}

/// True when every byte of `s` is 7-bit ASCII.
pub open spec fn ascii_bytes(s: Seq<u8>) -> bool {
    forall|i: int| 0 <= i < s.len() ==> s[i] < 0x80
}

/// The characters spelled by a sequence of ASCII bytes, one character per
/// byte.
pub open spec fn ascii_chars_of(s: Seq<u8>) -> Seq<char> {
    Seq::new(s.len(), |i: int| s[i] as char)
}

/// `clip_len` is in bounds, the bytes before it are non-zero, and the byte
/// at it (when it is not the whole of `s`) is zero.
pub proof fn lemma_clip_len_bounds(s: Seq<u8>)
    ensures
        0 <= clip_len(s) <= s.len(),
        forall|i: int| 0 <= i < clip_len(s) ==> s[i] != 0,
        clip_len(s) < s.len() ==> s[clip_len(s)] == 0,
    decreases s.len(),
{
    if s.len() == 0 {
    } else if s[0] == 0 {
    } else {
        lemma_clip_len_bounds(s.drop_first());
        assert forall|i: int| 0 <= i < clip_len(s) implies s[i] != 0 by {
            if i > 0 {
                assert(s.drop_first()[i - 1] != 0);
            }
        }
        if clip_len(s) < s.len() {
            assert(s.drop_first()[clip_len(s) - 1] == 0);
        }
    }
}

/// Any position with only non-zero bytes before it and a zero byte (or the
/// end of `s`) at it is `clip_len(s)`.
proof fn lemma_clip_len_at(s: Seq<u8>, p: int)
    requires
        0 <= p <= s.len(),
        forall|i: int| 0 <= i < p ==> s[i] != 0,
        p < s.len() ==> s[p] == 0,
    ensures
        clip_len(s) == p,
    decreases s.len(),
{
    if p == 0 {
    } else {
        assert(s[0] != 0);
        assert forall|i: int| 0 <= i < p - 1 implies s.drop_first()[i] != 0 by {
            assert(s[i + 1] != 0);
        }
        if p - 1 < s.drop_first().len() {
            assert(s.drop_first()[p - 1] == s[p]);
        }
        lemma_clip_len_at(s.drop_first(), p - 1);
    }
}

/// Position of the first zero byte of `buf`, or its length if it has none.
fn zero_position(buf: &[u8]) -> (p: usize)
    ensures
        p == clip_len(buf@),
{
    let mut i: usize = 0;
    while i < buf.len()
        invariant
            0 <= i <= buf@.len(),
            forall|j: int| 0 <= j < i ==> buf@[j] != 0,
        decreases buf@.len() - i,
    {
        if buf[i] == 0 {
            proof {
                lemma_clip_len_at(buf@, i as int);
            }
            return i;
        }
        i = i + 1;
    }
    proof {
        lemma_clip_len_at(buf@, i as int);
    }
    i
}

/// True when every byte of `buf` from position `start` on is zero.
fn all_zero_from(buf: &[u8], start: usize) -> (r: bool)
    requires
        start <= buf@.len(),
    ensures
        r == (forall|i: int| start <= i < buf@.len() ==> buf@[i] == 0),
{
    let mut i: usize = start;
    while i < buf.len()
        invariant
            start <= i <= buf@.len(),
            forall|j: int| start <= j < i ==> buf@[j] == 0,
        decreases buf@.len() - i,
    {
        if buf[i] != 0 {
            return false;
        }
        i = i + 1;
    }
    true
}

/// True when every byte of `buf` is 7-bit ASCII.
fn all_ascii(buf: &[u8]) -> (r: bool)
    ensures
        r == ascii_bytes(buf@),
{
    let mut i: usize = 0;
    while i < buf.len()
        invariant
            0 <= i <= buf@.len(),
            forall|j: int| 0 <= j < i ==> buf@[j] < 0x80,
        decreases buf@.len() - i,
    {
        if buf[i] >= 0x80 {
            return false;
        }
        i = i + 1;
    }
    true
}

/// A sequence of ASCII bytes is valid UTF-8 and decodes to one character
/// per byte.
pub proof fn lemma_ascii_decode(s: Seq<u8>)
    requires
        ascii_bytes(s),
    ensures
        valid_utf8(s),
        decode_utf8(s) == ascii_chars_of(s),
    decreases s.len(),
{
    if s.len() == 0 {
        assert(decode_utf8(s) =~= ascii_chars_of(s));
    } else {
        let b0 = s[0];
        assert(is_leading_byte_width_1(b0));
        assert(b0 & 0x7f == b0) by (bit_vector)
            requires
                b0 < 0x80,
        ;
        assert(valid_first_scalar(s));
        let rest = s.drop_first();
        assert(ascii_bytes(rest)) by {
            assert forall|i: int| 0 <= i < rest.len() implies rest[i] < 0x80 by {
                assert(s[i + 1] < 0x80);
            }
        }
        lemma_ascii_decode(rest);
        assert(pop_first_scalar(s) =~= rest);
        assert(codepoint_width_1(b0) == b0 as u32);
        assert(decode_utf8(s) =~= ascii_chars_of(s));
    }
}

/// What `String::from_utf8_lossy` spells out of a byte sequence.
pub uninterp spec fn lossy_chars(bytes: Seq<u8>) -> Seq<char>;

/// Relies on `String::from_utf8_lossy`: the result is a function of the
/// bytes alone, and bytes that are valid UTF-8 decode to exactly their
/// characters, with no replacement.
#[verifier::external_body]
fn from_utf8_lossy_string(bytes: &[u8]) -> (r: String)
    ensures
        r@ == lossy_chars(bytes@),
        valid_utf8(bytes@) ==> r@ == decode_utf8(bytes@),
{
    String::from_utf8_lossy(bytes).into_owned()
}

/// Strictly decodes a fixed-width text field.
///
/// The candidate text is the bytes before the first zero byte of `buf`, or
/// all of `buf` when it has no zero byte. Fails with `NotZeroFilled` when a
/// non-zero byte follows the first zero byte, and with `NotAscii` when the
/// candidate text is not 7-bit ASCII; otherwise returns the candidate text
/// as a string (the empty string when `buf` starts with a zero byte).
pub fn as_las_str(buf: &[u8]) -> (r: Result<String, Error>)
    ensures
        match r {
            Ok(s) => zero_filled(buf@) && ascii_bytes(clipped(buf@)) && s@ == ascii_chars_of(
                clipped(buf@),
            ),
            Err(Error::NotZeroFilled(b)) => !zero_filled(buf@) && b@ == buf@,
            Err(Error::NotAscii(t)) => zero_filled(buf@) && !ascii_bytes(clipped(buf@)) && t@
                == lossy_chars(clipped(buf@)),
            Err(Error::StringTooLong { .. }) => false,
        },
{
    proof {
        lemma_clip_len_bounds(buf@);
    }
    let p = zero_position(buf);
    if !all_zero_from(buf, p) {
        return Err(Error::NotZeroFilled(slice_to_vec(buf)));
    }
    let candidate = &buf[0..p];
    proof {
        assert(candidate@ =~= clipped(buf@));
    }
    if !all_ascii(candidate) {
        return Err(Error::NotAscii(from_utf8_lossy_string(candidate)));
    }
    proof {
        lemma_ascii_decode(candidate@);
    }
    Ok(from_utf8_lossy_string(candidate))
}

/// Best-effort decode of a fixed-width text field: never fails.
///
/// Decodes strictly when possible; otherwise takes the bytes before the
/// first zero byte of `buf` (or all of `buf` when it has no zero byte) and
/// converts them permissively, substituting a replacement character for any
/// byte sequence that is not valid text.
pub fn as_las_string_lossy(buf: &[u8]) -> (r: String)
    ensures
        valid_utf8(clipped(buf@)) ==> r@ == decode_utf8(clipped(buf@)),
        !valid_utf8(clipped(buf@)) ==> r@ == lossy_chars(clipped(buf@)),
{
    match as_las_str(buf) {
        Ok(s) => {
            proof {
                lemma_ascii_decode(clipped(buf@));
            }
            s
        },
        Err(_) => {
            proof {
                lemma_clip_len_bounds(buf@);
            }
            let p = zero_position(buf);
            let candidate = &buf[0..p];
            proof {
                assert(candidate@ =~= clipped(buf@));
            }
            from_utf8_lossy_string(candidate)
        },
    }
}

/// Encodes `s` into the leading bytes of the fixed-width field `buf`.
///
/// Fails with `StringTooLong` when the bytes of `s` do not fit in `buf`,
/// leaving `buf` unchanged. Otherwise copies the bytes of `s` into the
/// leading positions of `buf` and leaves the trailing bytes untouched:
/// callers that need zero padding must zero `buf` beforehand.
pub fn from_las_str(buf: &mut Vec<u8>, s: &str) -> (r: Result<(), Error>)
    ensures
        match r {
            Ok(()) => {
                let bytes = vstd::utf8::encode_utf8(s@);
                &&& bytes.len() <= old(buf)@.len()
                &&& final(buf)@.len() == old(buf)@.len()
                &&& forall|i: int| 0 <= i < bytes.len() ==> final(buf)@[i] == bytes[i]
                &&& forall|i: int|
                    bytes.len() <= i < old(buf)@.len() ==> final(buf)@[i] == old(buf)@[i]
            },
            Err(Error::StringTooLong { string, len }) => {
                &&& vstd::utf8::encode_utf8(s@).len() > old(buf)@.len()
                &&& final(buf)@ == old(buf)@
                &&& string@ == s@
                &&& len == old(buf)@.len()
            },
            Err(_) => false,
        },
{
    let bytes = s.as_bytes();
    if buf.len() < bytes.len() {
        return Err(Error::StringTooLong { string: s.to_owned(), len: buf.len() });
    }
    let mut i: usize = 0;
    while i < bytes.len()
        invariant
            0 <= i <= bytes@.len(),
            bytes@.len() <= buf@.len(),
            buf@.len() == old(buf)@.len(),
            forall|j: int| 0 <= j < i ==> buf@[j] == bytes@[j],
            forall|j: int| i <= j < buf@.len() ==> buf@[j] == old(buf)@[j],
        decreases bytes@.len() - i,
    {
        let b = bytes[i];
        buf.set(i, b);
        i = i + 1;
    }
    Ok(())
}

/// Law: encoding an ASCII string with no null character into a buffer whose
/// trailing bytes are zero produces a field that strictly decodes back to
/// the original characters. The byte hypotheses are exactly what
/// [`from_las_str`] ensures of a pre-zeroed buffer, and the conclusions are
/// exactly what the `Ok` case of [`as_las_str`] speaks of.
pub proof fn lemma_encode_decode_round_trip(s: Seq<char>, out: Seq<u8>)
    requires
        vstd::utf8::is_ascii_chars(s),
        forall|i: int| 0 <= i < s.len() ==> s[i] != '\0',
        vstd::utf8::encode_utf8(s).len() <= out.len(),
        forall|i: int|
            0 <= i < vstd::utf8::encode_utf8(s).len() ==> out[i] == vstd::utf8::encode_utf8(s)[i],
        forall|i: int| vstd::utf8::encode_utf8(s).len() <= i < out.len() ==> out[i] == 0,
    ensures
        zero_filled(out),
        ascii_bytes(clipped(out)),
        ascii_chars_of(clipped(out)) == s,
{
    let bytes = vstd::utf8::encode_utf8(s);
    vstd::utf8::is_ascii_chars_encode_utf8(s);
    assert forall|i: int| 0 <= i < bytes.len() implies out[i] != 0 by {
        let c = s[i];
        vstd::utf8::char_is_scalar(c);
        assert(out[i] == c as u8);
        if c as u8 == 0 {
            vstd::utf8::char_u32_cast(c, c as u32);
            assert((c as u32) < 0x80);
            assert(c as u32 == 0) by {
                assert(c as u8 == c as u32 as u8);
            }
            assert(c == '\0');
        }
    }
    lemma_clip_len_at(out, bytes.len() as int);
    assert(clipped(out) =~= bytes);
    assert forall|i: int| 0 <= i < bytes.len() implies bytes[i] < 0x80 by {
        assert(bytes[i] == s[i] as u8);
    }
    assert forall|i: int| 0 <= i < bytes.len() implies ascii_chars_of(bytes)[i] == s[i] by {
        let c = s[i];
        vstd::utf8::char_u32_cast(c, c as u32);
        assert(bytes[i] == c as u8);
        assert((c as u8) as char == (c as u32) as char);
    }
    assert(ascii_chars_of(clipped(out)) =~= s);
}

} // verus!

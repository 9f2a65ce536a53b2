//! Fixed-width, null-terminated text fields.

use vstd::prelude::*;
use vstd::utf8::{
    char_is_scalar, char_u32_cast, decode_utf8, encode_scalar, encode_utf8, encode_utf8_decode_utf8,
    encode_utf8_valid_utf8, is_scalar, valid_utf8,
};

verus! {

/// Relies on `std::str::from_utf8`: it accepts exactly the valid UTF-8 byte
/// sequences, and then yields the characters that they encode.
#[verifier::external_body]
fn from_utf8_bytes(b: &[u8]) -> (r: Option<String>)
    ensures
        r.is_some() == valid_utf8(b@),
        r.is_some() ==> r.unwrap()@ == decode_utf8(b@),
{
    match std::str::from_utf8(b) {
        Ok(s) => Some(s.to_string()),
        Err(_) => None,
    }
}

/// `k` is the position of the first zero byte of `s`.
pub open spec fn is_first_nul(s: Seq<u8>, k: int) -> bool {
    &&& 0 <= k < s.len()
    &&& s[k] == 0
    &&& forall|i: int| 0 <= i < k ==> s[i] != 0
}

/// The bytes of `field` before its first zero byte, or `None` when it holds none.
pub open spec fn nul_trimmed(field: Seq<u8>) -> Option<Seq<u8>> {
    if exists|k: int| is_first_nul(field, k) {
        Some(field.take(choose|k: int| is_first_nul(field, k)))
    } else {
        None
    }
}

/// A raw field as the records keep it: the bytes before the terminator, or
/// nothing where the field has no terminator.
pub open spec fn raw_text(field: Seq<u8>) -> Seq<u8> {
    match nul_trimmed(field) {
        Some(t) => t,
        None => Seq::empty(),
    }
}

/// The text of `t`, or empty text where `t` is not valid UTF-8.
pub open spec fn utf8_or_empty(t: Seq<u8>) -> Seq<char> {
    if valid_utf8(t) {
        decode_utf8(t)
    } else {
        Seq::empty()
    }
}

/// A UTF-8 field as text: empty where it has no terminator or is not valid UTF-8.
pub open spec fn utf8_text(field: Seq<u8>) -> Seq<char> {
    match nul_trimmed(field) {
        Some(t) => utf8_or_empty(t),
        None => Seq::empty(),
    }
}

/// `t` followed by zero bytes up to `width` bytes.
pub open spec fn padded(t: Seq<u8>, width: nat) -> Seq<u8> {
    t + Seq::new((width - t.len()) as nat, |i: int| 0u8)
}

/// `t` holds no zero byte.
pub open spec fn nul_free(t: Seq<u8>) -> bool {
    forall|i: int| 0 <= i < t.len() ==> t[i] != 0
}

/// A field written as text without zero bytes, shorter than the field and
/// padded with zeros, reads back as that text.
pub proof fn lemma_padded_round_trip(t: Seq<u8>, width: nat)
    requires
        nul_free(t),
        t.len() < width,
    ensures
        nul_trimmed(padded(t, width)) == Some(t),
        raw_text(padded(t, width)) == t,
        utf8_text(padded(t, width)) == utf8_or_empty(t),
{
    let f = padded(t, width);
    let k = t.len() as int;
    assert(is_first_nul(f, k));
    let c = choose|j: int| is_first_nul(f, j);
    lemma_first_nul_unique(f, c, k);
    assert(f.take(k) =~= t);
}

pub(crate) proof fn lemma_first_nul_unique(s: Seq<u8>, k: int, j: int)
    requires
        is_first_nul(s, k),
        is_first_nul(s, j),
    ensures
        k == j,
{
    if k < j {
        assert(s[k] != 0);
    } else if j < k {
        assert(s[j] != 0);
    }
}

proof fn lemma_scalar_nul_free(v: u32)
    requires
        is_scalar(v),
        v != 0,
    ensures
        nul_free(encode_scalar(v)),
{
    assert(forall|x: u8| #![auto] (0xC0u8 | x) != 0 && (0xE0u8 | x) != 0 && (0xF0u8 | x) != 0 && (0x80u8 | x) != 0) by (bit_vector);
    assert(0 < v <= 0x7F ==> (v & 0x7F) as u8 != 0) by (bit_vector);
}

/// Text without a NUL character encodes to bytes without a zero byte.
pub proof fn lemma_encoding_nul_free(text: Seq<char>)
    requires
        forall|i: int| 0 <= i < text.len() ==> text[i] != '\0',
    ensures
        nul_free(encode_utf8(text)),
    decreases text.len(),
{
    if text.len() > 0 {
        let c = text[0];
        char_is_scalar(c);
        assert((c as u32) != 0) by {
            if (c as u32) == 0 {
                char_u32_cast(c, 0);
                assert(('\0' as u32) == 0);
                char_u32_cast('\0', 0);
            }
        }
        lemma_scalar_nul_free(c as u32);
        let rest = text.drop_first();
        assert forall|i: int| 0 <= i < rest.len() implies rest[i] != '\0' by {
            assert(rest[i] == text[i + 1]);
        }
        lemma_encoding_nul_free(rest);
        let head = encode_scalar(c as u32);
        let tail = encode_utf8(rest);
        assert(encode_utf8(text) == head + tail);
        assert forall|i: int| 0 <= i < (head + tail).len() implies (head + tail)[i] != 0 by {
            if i >= head.len() {
                assert((head + tail)[i] == tail[i - head.len()]);
            }
        }
    }
}

/// A UTF-8 field that holds the encoding of a text without NUL characters,
/// then a zero byte, then anything, reads as that text.
pub proof fn lemma_utf8_field_round_trip(field: Seq<u8>, text: Seq<char>)
    requires
        forall|i: int| 0 <= i < text.len() ==> text[i] != '\0',
        encode_utf8(text).len() < field.len(),
        field.take(encode_utf8(text).len() as int) == encode_utf8(text),
        field[encode_utf8(text).len() as int] == 0,
    ensures
        utf8_text(field) == text,
{
    let bytes = encode_utf8(text);
    let k = bytes.len() as int;
    lemma_encoding_nul_free(text);
    assert forall|i: int| 0 <= i < k implies field[i] != 0 by {
        assert(field[i] == field.take(k)[i]);
    }
    assert(is_first_nul(field, k));
    let c = choose|j: int| is_first_nul(field, j);
    lemma_first_nul_unique(field, c, k);
    encode_utf8_valid_utf8(text);
    encode_utf8_decode_utf8(text);
}

/// Position of the first zero byte of `field`, if it has one.
pub fn find_nul(field: &[u8]) -> (r: Option<usize>)
    ensures
        match r {
            Some(k) => is_first_nul(field@, k as int) && nul_trimmed(field@) == Some(
                field@.take(k as int),
            ),
            None => nul_trimmed(field@) is None,
        },
{
    let n = field.len();
    let mut i: usize = 0;
    while i < n
        invariant
            n == field@.len(),
            i <= n,
            forall|j: int| 0 <= j < i ==> field@[j] != 0,
        decreases n - i,
    {
        if field[i] == 0 {
            proof {
                assert(is_first_nul(field@, i as int));
                let c = choose|k: int| is_first_nul(field@, k);
                lemma_first_nul_unique(field@, c, i as int);
            }
            return Some(i);
        }
        i = i + 1;
    }
    assert(!exists|k: int| is_first_nul(field@, k));
    None
}

/// The bytes of `field` before its terminator; empty where there is none.
pub fn raw_field(field: &[u8]) -> (r: Vec<u8>)
    ensures
        r@ == raw_text(field@),
{
    match find_nul(field) {
        Some(k) => {
            let mut out: Vec<u8> = Vec::new();
            let mut i: usize = 0;
            while i < k
                invariant
                    k <= field@.len(),
                    i <= k,
                    out@ == field@.take(i as int),
                decreases k - i,
            {
                out.push(field[i]);
                i = i + 1;
                assert(out@ =~= field@.take(i as int));
            }
            out
        },
        None => Vec::new(),
    }
}

/// The text of a null-terminated UTF-8 field; empty where the field has no
/// terminator or its bytes are not UTF-8.
pub fn utf8_to_str(utf8: &[u8]) -> (r: String)
    ensures
        r@ == utf8_text(utf8@),
{
    match find_nul(utf8) {
        Some(k) => {
            let head = &utf8[0..k];
            assert(head@ =~= utf8@.take(k as int));
            match from_utf8_bytes(head) {
                Some(s) => s,
                None => String::new(),
            }
        },
        None => String::new(),
    }
}

} // verus!

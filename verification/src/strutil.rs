//! Small verified helpers for byte slices and strings: equality,
//! ASCII-case-insensitive comparison, decimal formatting, and the one
//! trusted conversion from bytes back to a `String`.

use vstd::prelude::*;

verus! {

use vstd::string::StringSliceAdditionalSpecFns;
use vstd::utf8::{encode_utf8, valid_utf8};

/// Byte-for-byte equality of two slices.
pub fn bytes_eq(a: &[u8], b: &[u8]) -> (r: bool)
    ensures
        r == (a@ == b@),
{
    if a.len() != b.len() {
        assert(a@ != b@);
        return false;
    }
    let n = a.len();
    let mut i: usize = 0;
    while i < n
        invariant
            n == a@.len() == b@.len(),
            i <= n,
            forall|j: int| 0 <= j < i ==> a@[j] == b@[j],
        decreases n - i,
    {
        if a[i] != b[i] {
            return false;
        }
        i += 1;
    }
    assert(a@ =~= b@);
    true
}

/// Equality of two string slices, specified over their character views.
pub fn str_eq(a: &str, b: &str) -> (r: bool)
    ensures
        r == (a@ == b@),
{
    let r = bytes_eq(a.as_bytes(), b.as_bytes());
    proof {
        broadcast use vstd::utf8::encode_utf8_decode_utf8;

        assert(a.spec_bytes() == encode_utf8(a@));
        assert(b.spec_bytes() == encode_utf8(b@));
        if a.spec_bytes() == b.spec_bytes() {
            assert(decode_utf8_of(encode_utf8(a@)) == a@);
        }
    }
    r
}

/// The characters a byte sequence decodes to, when it is valid UTF-8.
pub open spec fn decode_utf8_of(bytes: Seq<u8>) -> Seq<char> {
    vstd::utf8::decode_utf8(bytes)
}

/// Lower-cases one byte when it is an upper-case ASCII letter.
pub open spec fn ascii_lower_byte(b: u8) -> u8 {
    if 65 <= b && b <= 90 {
        (b + 32) as u8
    } else {
        b
    }
}

/// Lower-cases every upper-case ASCII letter in a byte sequence.
pub open spec fn ascii_lower(s: Seq<u8>) -> Seq<u8> {
    s.map_values(|b: u8| ascii_lower_byte(b))
}

/// True when two byte sequences are equal up to ASCII letter case.
pub open spec fn token_eq(a: Seq<u8>, b: Seq<u8>) -> bool {
    ascii_lower(a) == ascii_lower(b)
}

fn lower_byte(b: u8) -> (r: u8)
    ensures
        r == ascii_lower_byte(b),
{
    if 65 <= b && b <= 90 {
        b + 32
    } else {
        b
    }
}

/// ASCII-case-insensitive equality of two strings, specified over the
/// UTF-8 bytes of their views.
pub fn eq_ignore_ascii_case(a: &str, b: &str) -> (r: bool)
    ensures
        r == token_eq(a.spec_bytes(), b.spec_bytes()),
{
    let ghost sa = a.spec_bytes();
    let ghost sb = b.spec_bytes();
    let ab = a.as_bytes();
    let bb = b.as_bytes();
    if ab.len() != bb.len() {
        assert(ascii_lower(sa).len() != ascii_lower(sb).len());
        return false;
    }
    let n = ab.len();
    let mut i: usize = 0;
    while i < n
        invariant
            sa == a.spec_bytes(),
            sb == b.spec_bytes(),
            ab@ == sa,
            bb@ == sb,
            n == sa.len() == sb.len(),
            i <= n,
            forall|j: int| 0 <= j < i ==> ascii_lower(sa)[j] == ascii_lower(sb)[j],
        decreases n - i,
    {
        if lower_byte(ab[i]) != lower_byte(bb[i]) {
            proof {
                assert(sa[i as int] == ab@[i as int]);
                assert(ascii_lower(sa)[i as int] == ascii_lower_byte(sa[i as int]));
                assert(ascii_lower(sb)[i as int] == ascii_lower_byte(sb[i as int]));
                assert(ascii_lower(sa)[i as int] != ascii_lower(sb)[i as int]);
            }
            return false;
        }
        i += 1;
    }
    assert(ascii_lower(sa) =~= ascii_lower(sb));
    true
}

/// Copies a byte vector.
pub fn clone_bytes(v: &Vec<u8>) -> (r: Vec<u8>)
    ensures
        r@ == v@,
{
    let mut r: Vec<u8> = Vec::new();
    let n = v.len();
    let mut i: usize = 0;
    while i < n
        invariant
            n == v@.len(),
            i <= n,
            r@ == v@.subrange(0, i as int),
        decreases n - i,
    {
        r.push(v[i]);
        proof {
            assert(r@ =~= v@.subrange(0, i + 1));
        }
        i += 1;
    }
    proof {
        assert(r@ =~= v@);
    }
    r
}

/// Copies a vector of strings, preserving each string's characters.
pub fn clone_strings(v: &Vec<String>) -> (r: Vec<String>)
    ensures
        r.deep_view() == v.deep_view(),
{
    let mut r: Vec<String> = Vec::new();
    let n = v.len();
    let mut i: usize = 0;
    while i < n
        invariant
            n == v@.len(),
            i <= n,
            r@.len() == i,
            forall|j: int| 0 <= j < i ==> r@[j]@ == v@[j]@,
        decreases n - i,
    {
        r.push(v[i].clone());
        i += 1;
    }
    proof {
        assert(r.deep_view() =~= v.deep_view());
    }
    r
}

/// UTF-8 encoding distributes over concatenation.
pub proof fn lemma_encode_utf8_concat(a: Seq<char>, b: Seq<char>)
    ensures
        encode_utf8(a + b) == encode_utf8(a) + encode_utf8(b),
    decreases a.len(),
{
    if a.len() == 0 {
        assert(a + b =~= b);
        assert(encode_utf8(a) =~= Seq::<u8>::empty());
        assert(encode_utf8(a) + encode_utf8(b) =~= encode_utf8(b));
    } else {
        assert((a + b)[0] == a[0]);
        assert((a + b).len() > 0);
        assert((a + b).drop_first() =~= a.drop_first() + b);
        lemma_encode_utf8_concat(a.drop_first(), b);
        assert(encode_utf8(a + b) == vstd::utf8::encode_scalar((a + b)[0] as u32) + encode_utf8(
            (a + b).drop_first(),
        ));
        assert(vstd::utf8::encode_scalar(a[0] as u32) + (encode_utf8(a.drop_first()) + encode_utf8(
            b,
        )) =~= (vstd::utf8::encode_scalar(a[0] as u32) + encode_utf8(a.drop_first())) + encode_utf8(
            b,
        ));
    }
}

/// Each character encodes to at most four UTF-8 bytes.
pub proof fn lemma_encode_utf8_len(s: Seq<char>)
    ensures
        encode_utf8(s).len() <= 4 * s.len(),
    decreases s.len(),
{
    if s.len() == 0 {
    } else {
        lemma_encode_utf8_len(s.drop_first());
        assert(vstd::utf8::encode_scalar(s[0] as u32).len() <= 4);
    }
}

/// The decimal digit character for a value below ten.
pub open spec fn digit_char(d: nat) -> char {
    ((48 + d) as u8) as char
}

/// The decimal digits of a number, most significant first.
pub open spec fn spec_decimal(n: nat) -> Seq<char>
    decreases n,
{
    if n < 10 {
        seq![digit_char(n)]
    } else {
        spec_decimal(n / 10).push(digit_char(n % 10))
    }
}

/// The ASCII bytes of a number's decimal digits.
pub open spec fn ascii_digits(n: nat) -> Seq<u8>
    decreases n,
{
    if n < 10 {
        seq![(48 + n) as u8]
    } else {
        ascii_digits(n / 10).push((48 + n % 10) as u8)
    }
}

proof fn lemma_masked_low_byte(x: u32)
    requires
        x < 128,
    ensures
        (x & 0x7F) == x,
{
    assert(x < 128 ==> (x & 0x7F) == x) by (bit_vector);
}

proof fn lemma_encode_single_ascii(c: char)
    requires
        (c as u32) < 128,
    ensures
        encode_utf8(seq![c]) == seq![(c as u32) as u8],
{
    lemma_masked_low_byte(c as u32);
    assert(seq![c][0] == c);
    assert(seq![c].drop_first() =~= Seq::<char>::empty());
    assert(encode_utf8(Seq::<char>::empty()) =~= Seq::<u8>::empty());
    assert(encode_utf8(seq![c]) == vstd::utf8::encode_scalar(c as u32) + encode_utf8(
        seq![c].drop_first(),
    ));
    assert(vstd::utf8::encode_scalar(c as u32) =~= seq![(c as u32) as u8]);
    assert(encode_utf8(seq![c]) =~= seq![(c as u32) as u8]);
}

proof fn lemma_decimal_utf8(n: nat)
    ensures
        encode_utf8(spec_decimal(n)) == ascii_digits(n),
    decreases n,
{
    if n < 10 {
        let c = digit_char(n);
        assert(c as u32 == 48 + n);
        lemma_encode_single_ascii(c);
        assert(spec_decimal(n) == seq![c]);
        assert(encode_utf8(spec_decimal(n)) =~= ascii_digits(n));
    } else {
        lemma_decimal_utf8(n / 10);
        let c = digit_char(n % 10);
        assert(c as u32 == 48 + n % 10);
        lemma_encode_single_ascii(c);
        assert(spec_decimal(n) =~= spec_decimal(n / 10) + seq![c]);
        lemma_encode_utf8_concat(spec_decimal(n / 10), seq![c]);
        assert(encode_utf8(spec_decimal(n)) =~= ascii_digits(n));
    }
}

fn push_decimal(out: &mut Vec<u8>, n: u64)
    ensures
        final(out)@ == old(out)@ + ascii_digits(n as nat),
    decreases n,
{
    if n < 10 {
        out.push(48 + n as u8);
        proof {
            assert(out@ =~= old(out)@ + ascii_digits(n as nat));
        }
    } else {
        push_decimal(out, n / 10);
        out.push(48 + (n % 10) as u8);
        proof {
            assert(out@ =~= old(out)@ + ascii_digits(n as nat));
        }
    }
}

/// The decimal spelling of a number.
pub fn u64_to_string(n: u64) -> (r: String)
    ensures
        r@ == spec_decimal(n as nat),
{
    let mut bytes: Vec<u8> = Vec::new();
    push_decimal(&mut bytes, n);
    proof {
        broadcast use vstd::utf8::encode_utf8_valid_utf8;
        broadcast use vstd::utf8::encode_utf8_decode_utf8;

        lemma_decimal_utf8(n as nat);
        assert(bytes@ =~= encode_utf8(spec_decimal(n as nat)));
        assert(valid_utf8(bytes@));
    }
    match string_from_utf8(bytes) {
        Some(s) => {
            proof {
                assert(decode_utf8_of(encode_utf8(s@)) == s@);
                assert(decode_utf8_of(encode_utf8(spec_decimal(n as nat))) == spec_decimal(
                    n as nat,
                ));
            }
            s
        },
        None => {
            proof {
                assert(false);
            }
            String::new()
        },
    }
}

/// Relies on `String::from_utf8`: it accepts exactly the byte sequences
/// that are valid UTF-8 and returns the string those bytes encode.
#[verifier::external_body]
pub fn string_from_utf8(v: Vec<u8>) -> (r: Option<String>)
    ensures
        r is Some <==> valid_utf8(v@),
        r is Some ==> encode_utf8(r.unwrap()@) == v@,
{
    match String::from_utf8(v) {
        Ok(s) => Some(s),
        Err(_) => None,
    }
}

} // verus!

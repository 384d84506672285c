//! Base64, in the standard and the URL-safe alphabet.

use vstd::prelude::*;
use vstd::utf8::*;

use crate::text::{to_chars, trim_back, trim_end_class, CharClass};

verus! {

/// Why a text is not base64.
#[derive(Debug, Clone, Copy, PartialEq, Eq, Structural)]
pub struct NotBase64;

/// The character that stands for the six bits `v` in the standard alphabet.
pub open spec fn sextet_char(v: int) -> char {
    if v < 26 {
        ((65 + v) as u8) as char
    } else if v < 52 {
        ((71 + v) as u8) as char
    } else if v < 62 {
        ((v - 4) as u8) as char
    } else if v == 62 {
        '+'
    } else {
        '/'
    }
}

/// The six bits that the byte `b` stands for in the standard alphabet.
pub open spec fn sextet_value(b: u8) -> Option<int> {
    if 65 <= b <= 90 {
        Some(b - 65)
    } else if 97 <= b <= 122 {
        Some(b - 71)
    } else if 48 <= b <= 57 {
        Some(b + 4)
    } else if b == 43 {
        Some(62)
    } else if b == 47 {
        Some(63)
    } else {
        None
    }
}

/// The byte at `i`, or zero past the end.
pub open spec fn byte_at(d: Seq<u8>, i: int) -> int {
    if 0 <= i < d.len() {
        d[i] as int
    } else {
        0
    }
}

/// The 24 bits of the `g`-th group of three bytes.
pub open spec fn group_bits(d: Seq<u8>, g: int) -> int {
    byte_at(d, 3 * g) * 65536 + byte_at(d, 3 * g + 1) * 256 + byte_at(d, 3 * g + 2)
}

/// The `k`-th six bits of `d`.
pub open spec fn sextet_at(d: Seq<u8>, k: int) -> int {
    let bits = group_bits(d, k / 4);
    if k % 4 == 0 {
        bits / 262144
    } else if k % 4 == 1 {
        bits / 4096 % 64
    } else if k % 4 == 2 {
        bits / 64 % 64
    } else {
        bits % 64
    }
}

/// How many characters encode `n` bytes, without padding.
pub open spec fn encoded_len(n: int) -> int {
    (4 * n + 2) / 3
}

/// The characters that encode `d` in the standard alphabet, without padding.
pub open spec fn base64_body(d: Seq<u8>) -> Seq<char> {
    Seq::new(encoded_len(d.len() as int) as nat, |k: int| sextet_char(sextet_at(d, k)))
}

/// The padding that follows the encoding of `n` bytes.
pub open spec fn base64_padding(n: int) -> Seq<char> {
    if n % 3 == 1 {
        seq!['=', '=']
    } else if n % 3 == 2 {
        seq!['=']
    } else {
        Seq::empty()
    }
}

/// The padded standard encoding of `d`.
pub open spec fn base64(d: Seq<u8>) -> Seq<char> {
    base64_body(d) + base64_padding(d.len() as int)
}

/// The URL-safe counterpart of a character of the standard alphabet.
pub open spec fn to_url_char(c: char) -> char {
    if c == '+' {
        '-'
    } else if c == '/' {
        '_'
    } else {
        c
    }
}

/// The standard counterpart of a character of the URL-safe alphabet.
pub open spec fn from_url_char(c: char) -> char {
    if c == '-' {
        '+'
    } else if c == '_' {
        '/'
    } else {
        c
    }
}

/// `s` in the URL-safe alphabet.
pub open spec fn to_url(s: Seq<char>) -> Seq<char> {
    Seq::new(s.len(), |i: int| to_url_char(s[i]))
}

/// `s` in the standard alphabet.
pub open spec fn from_url(s: Seq<char>) -> Seq<char> {
    Seq::new(s.len(), |i: int| from_url_char(s[i]))
}

/// The URL-safe encoding of `d`, without padding.
pub open spec fn base64url(d: Seq<u8>) -> Seq<char> {
    to_url(base64_body(d))
}

/// `s` without line breaks.
pub open spec fn without_breaks(s: Seq<char>) -> Seq<char>
    decreases s.len(),
{
    if s.len() == 0 {
        s
    } else if s.last() == '\n' || s.last() == '\r' {
        without_breaks(s.drop_last())
    } else {
        without_breaks(s.drop_last()).push(s.last())
    }
}

/// The six bits at `j`, or zero past the end.
pub open spec fn sextet_or_zero(b: Seq<u8>, j: int) -> int {
    if 0 <= j < b.len() {
        sextet_value(b[j]).unwrap_or(0)
    } else {
        0
    }
}

/// How many bytes `m` characters decode to.
pub open spec fn decoded_len(m: int) -> int {
    m / 4 * 3 + (if m % 4 == 0 {
        0int
    } else if m % 4 == 3 {
        2
    } else {
        1
    })
}

/// The `i`-th byte that the characters `b` decode to.
pub open spec fn decoded_byte(b: Seq<u8>, i: int) -> u8 {
    let j = i / 3 * 4;
    let v = if i % 3 == 0 {
        sextet_or_zero(b, j) * 4 + sextet_or_zero(b, j + 1) / 16
    } else if i % 3 == 1 {
        sextet_or_zero(b, j + 1) * 16 + sextet_or_zero(b, j + 2) / 4
    } else {
        sextet_or_zero(b, j + 2) * 64 + sextet_or_zero(b, j + 3)
    };
    (v % 256) as u8
}

/// Whether every byte of `b` belongs to the standard alphabet.
pub open spec fn all_sextets(b: Seq<u8>) -> bool {
    forall|i: int| 0 <= i < b.len() ==> sextet_value(#[trigger] b[i]) is Some
}

/// What the characters `b` decode to, where all belong to the alphabet.
pub open spec fn decoded_bytes(b: Seq<u8>) -> Option<Seq<u8>> {
    if all_sextets(b) {
        Some(Seq::new(decoded_len(b.len() as int) as nat, |i: int| decoded_byte(b, i)))
    } else {
        None
    }
}

/// What `s` decodes to: line breaks and padding at the end are passed over.
pub open spec fn base64_decoded(s: Seq<char>) -> Option<Seq<u8>> {
    decoded_bytes(encode_utf8(trim_back(without_breaks(s), CharClass::Only('='))))
}

/// What the URL-safe text `s` decodes to.
pub open spec fn base64url_decoded(s: Seq<char>) -> Option<Seq<u8>> {
    base64_decoded(from_url(s))
}

proof fn lemma_group_bits(b0: u32, b1: u32, b2: u32)
    requires
        b0 < 256,
        b1 < 256,
        b2 < 256,
    ensures
        ((b0 << 16) | (b1 << 8) | b2) == b0 * 65536 + b1 * 256 + b2,
{
    assert(((b0 << 16) | (b1 << 8) | b2) == b0 * 65536 + b1 * 256 + b2) by (bit_vector)
        requires
            b0 < 256,
            b1 < 256,
            b2 < 256,
    ;
}

proof fn lemma_sextet_bits(c: u32)
    requires
        c < 0x100_0000,
    ensures
        (c >> 18) & 63 == c / 262144,
        (c >> 12) & 63 == c / 4096 % 64,
        (c >> 6) & 63 == c / 64 % 64,
        c & 63 == c % 64,
{
    assert((c >> 18) & 63 == c / 262144) by (bit_vector)
        requires
            c < 0x100_0000,
    ;
    assert((c >> 12) & 63 == c / 4096 % 64) by (bit_vector);
    assert((c >> 6) & 63 == c / 64 % 64) by (bit_vector);
    assert(c & 63 == c % 64) by (bit_vector);
}

/// The character that stands for the six bits `v`.
fn char_of_sextet(v: u32) -> (r: char)
    requires
        v < 64,
    ensures
        r == sextet_char(v as int),
{
    if v < 26 {
        (65 + v) as u8 as char
    } else if v < 52 {
        (71 + v) as u8 as char
    } else if v < 62 {
        (v - 4) as u8 as char
    } else if v == 62 {
        '+'
    } else {
        '/'
    }
}

/// The six bits that the byte `c` stands for.
fn sextet_of_byte(c: u8) -> (r: Option<u32>)
    ensures
        match r {
            Some(v) => v < 64 && sextet_value(c) == Some(v as int),
            None => sextet_value(c) is None,
        },
{
    if 65 <= c && c <= 90 {
        Some((c - 65) as u32)
    } else if 97 <= c && c <= 122 {
        Some((c - 71) as u32)
    } else if 48 <= c && c <= 57 {
        Some((c + 4) as u32)
    } else if c == 43 {
        Some(62)
    } else if c == 47 {
        Some(63)
    } else {
        None
    }
}

/// The four sextets of the `g`-th group.
proof fn lemma_group_sextets(d: Seq<u8>, g: int)
    requires
        g >= 0,
    ensures
        sextet_at(d, 4 * g) == group_bits(d, g) / 262144,
        sextet_at(d, 4 * g + 1) == group_bits(d, g) / 4096 % 64,
        sextet_at(d, 4 * g + 2) == group_bits(d, g) / 64 % 64,
        sextet_at(d, 4 * g + 3) == group_bits(d, g) % 64,
{
    assert((4 * g) / 4 == g && (4 * g) % 4 == 0);
    assert((4 * g + 1) / 4 == g && (4 * g + 1) % 4 == 1);
    assert((4 * g + 2) / 4 == g && (4 * g + 2) % 4 == 2);
    assert((4 * g + 3) / 4 == g && (4 * g + 3) % 4 == 3);
}

/// The four sextets of three bytes.
fn group_sextets(b0: u8, b1: u8, b2: u8) -> (r: (u32, u32, u32, u32))
    ensures
        ({
            let bits = b0 * 65536 + b1 * 256 + b2;
            r.0 == bits / 262144 && r.1 == bits / 4096 % 64 && r.2 == bits / 64 % 64 && r.3 == bits
                % 64
        }),
        r.0 < 64,
        r.1 < 64,
        r.2 < 64,
        r.3 < 64,
{
    let combined: u32 = ((b0 as u32) << 16) | ((b1 as u32) << 8) | b2 as u32;
    proof {
        lemma_group_bits(b0 as u32, b1 as u32, b2 as u32);
        lemma_sextet_bits(combined);
    }
    ((combined >> 18) & 63, (combined >> 12) & 63, (combined >> 6) & 63, combined & 63)
}

/// The padded standard encoding of `data`.
pub fn base64_encode(data: &[u8]) -> (r: String)
    ensures
        r@ == base64(data@),
{
    let mut out = String::new();
    let mut i: usize = 0;
    let n: usize = data.len();
    let ghost d = data@;
    let ghost mut g: int = 0;
    while n - i >= 3
        invariant
            n == data@.len(),
            d == data@,
            i == 3 * g,
            g >= 0,
            i <= n,
            out@.len() == 4 * g,
            forall|k: int| 0 <= k < 4 * g ==> #[trigger] out@[k] == sextet_char(sextet_at(d, k)),
        decreases n - i,
    {
        let (s0, s1, s2, s3) = group_sextets(data[i], data[i + 1], data[i + 2]);
        proof {
            lemma_group_sextets(d, g);
        }
        out.push(char_of_sextet(s0));
        out.push(char_of_sextet(s1));
        out.push(char_of_sextet(s2));
        out.push(char_of_sextet(s3));
        proof {
            g = g + 1;
        }
        i = i + 3;
    }
    let left: usize = n - i;
    proof {
        lemma_group_sextets(d, g);
    }
    if left == 1 {
        let (s0, s1, _, _) = group_sextets(data[i], 0, 0);
        out.push(char_of_sextet(s0));
        out.push(char_of_sextet(s1));
        out.push('=');
        out.push('=');
    } else if left == 2 {
        let (s0, s1, s2, _) = group_sextets(data[i], data[i + 1], 0);
        out.push(char_of_sextet(s0));
        out.push(char_of_sextet(s1));
        out.push(char_of_sextet(s2));
        out.push('=');
    }
    assert(out@ =~= base64(d));
    out
}

proof fn lemma_body_chars(d: Seq<u8>, k: int)
    requires
        0 <= k < encoded_len(d.len() as int),
    ensures
        0 <= sextet_at(d, k) < 64,
        base64_body(d)[k] == sextet_char(sextet_at(d, k)),
        base64_body(d)[k] != '=',
{
    let bits = group_bits(d, k / 4);
    assert(0 <= bits < 0x100_0000);
}

/// The URL-safe encoding of `data`, without padding.
pub fn base64url_encode(data: &[u8]) -> (r: String)
    ensures
        r@ == base64url(data@),
{
    let padded = base64_encode(data);
    let chars = to_chars(padded.as_str());
    let mut out = String::new();
    let mut i: usize = 0;
    while i < chars.len()
        invariant
            i <= chars@.len(),
            out@.len() == i,
            forall|j: int| 0 <= j < i ==> out@[j] == to_url_char(chars@[j]),
        decreases chars@.len() - i,
    {
        let c = chars[i];
        out.push(
            if c == '+' {
                '-'
            } else if c == '/' {
                '_'
            } else {
                c
            },
        );
        i = i + 1;
    }
    proof {
        let body = base64url(data@);
        let pad = base64_padding(data@.len() as int);
        assert(out@ =~= body + pad);
        if body.len() > 0 {
            lemma_body_chars(data@, body.len() - 1);
        }
        lemma_trim_padding(body, pad);
    }
    trim_end_class(out.as_str(), CharClass::Only('=')).to_owned()
}

/// Padding is what trimming takes away.
proof fn lemma_trim_padding(body: Seq<char>, pad: Seq<char>)
    requires
        body.len() == 0 || body.last() != '=',
        forall|i: int| 0 <= i < pad.len() ==> pad[i] == '=',
    ensures
        trim_back(body + pad, CharClass::Only('=')) == body,
    decreases pad.len(),
{
    if pad.len() == 0 {
        assert(body + pad =~= body);
    } else {
        assert((body + pad).last() == '=');
        assert((body + pad).drop_last() =~= body + pad.drop_last());
        lemma_trim_padding(body, pad.drop_last());
    }
}

proof fn lemma_decode_bits(v0: u32, v1: u32)
    requires
        v0 < 64,
        v1 < 64,
    ensures
        ((v0 << 2) | (v1 >> 4)) as u8 == (v0 * 4 + v1 / 16) % 256,
        ((v0 << 4) | (v1 >> 2)) as u8 == (v0 * 16 + v1 / 4) % 256,
        ((v0 << 6) | v1) as u8 == (v0 * 64 + v1) % 256,
{
    assert(((v0 << 2) | (v1 >> 4)) as u8 == (v0 * 4 + v1 / 16) % 256) by (bit_vector)
        requires
            v0 < 64,
            v1 < 64,
    ;
    assert(((v0 << 4) | (v1 >> 2)) as u8 == (v0 * 16 + v1 / 4) % 256) by (bit_vector)
        requires
            v0 < 64,
            v1 < 64,
    ;
    assert(((v0 << 6) | v1) as u8 == (v0 * 64 + v1) % 256) by (bit_vector)
        requires
            v0 < 64,
            v1 < 64,
    ;
}

/// The bytes that the characters `b` stand for.
fn decode_bytes(b: &[u8]) -> (r: Result<Vec<u8>, NotBase64>)
    ensures
        match r {
            Ok(d) => decoded_bytes(b@) == Some(d@),
            Err(_) => decoded_bytes(b@) is None,
        },
{
    let n: usize = b.len();
    let mut values: Vec<u32> = Vec::new();
    let mut i: usize = 0;
    while i < n
        invariant
            n == b@.len(),
            i <= n,
            values@.len() == i,
            forall|j: int| 0 <= j < i ==> sextet_value(#[trigger] b@[j]) == Some(values@[j] as int),
            forall|j: int| 0 <= j < i ==> values@[j] < 64,
        decreases n - i,
    {
        match sextet_of_byte(b[i]) {
            Some(v) => values.push(v),
            None => {
                return Err(NotBase64);
            },
        }
        i = i + 1;
    }
    assert(all_sextets(b@));
    let mut out: Vec<u8> = Vec::new();
    let mut at: usize = 0;
    let ghost mut g: int = 0;
    assert forall|j: int| 0 <= j < n implies #[trigger] sextet_or_zero(b@, j) == values@[j] by {
        assert(sextet_value(b@[j]) == Some(values@[j] as int));
    }
    while at < n
        invariant
            n == b@.len() == values@.len(),
            at <= n,
            g >= 0,
            at < n ==> at == 4 * g && out@.len() == 3 * g,
            at == n ==> out@.len() == decoded_len(n as int),
            forall|j: int| 0 <= j < n ==> #[trigger] sextet_or_zero(b@, j) == values@[j],
            forall|j: int| 0 <= j < n ==> values@[j] < 64,
            forall|k: int| 0 <= k < out@.len() ==> #[trigger] out@[k] == decoded_byte(b@, k),
        decreases n - at,
    {
        let left: usize = n - at;
        let v0: u32 = values[at];
        let v1: u32 = if left > 1 {
            values[at + 1]
        } else {
            0
        };
        proof {
            lemma_decode_bits(v0, v1);
            assert(sextet_or_zero(b@, 4 * g) == v0);
            assert(sextet_or_zero(b@, 4 * g + 1) == v1);
            assert((3 * g) / 3 == g && (3 * g) % 3 == 0);
            assert((3 * g + 1) / 3 == g && (3 * g + 1) % 3 == 1);
            assert((3 * g + 2) / 3 == g && (3 * g + 2) % 3 == 2);
        }
        out.push(((v0 << 2) | (v1 >> 4)) as u8);
        assert(out@.last() == decoded_byte(b@, 3 * g));
        if left > 2 {
            let v2: u32 = values[at + 2];
            proof {
                lemma_decode_bits(v1, v2);
                assert(sextet_or_zero(b@, 4 * g + 2) == v2);
            }
            out.push(((v1 << 4) | (v2 >> 2)) as u8);
            assert(out@.last() == decoded_byte(b@, 3 * g + 1));
            if left > 3 {
                let v3: u32 = values[at + 3];
                proof {
                    lemma_decode_bits(v2, v3);
                    assert(sextet_or_zero(b@, 4 * g + 3) == v3);
                }
                out.push(((v2 << 6) | v3) as u8);
                assert(out@.last() == decoded_byte(b@, 3 * g + 2));
            }
        }
        proof {
            g = g + 1;
        }
        at = if left > 3 {
            at + 4
        } else {
            n
        };
    }
    assert(out@ =~= decoded_bytes(b@).unwrap());
    Ok(out)
}

/// What the standard base64 text `s` decodes to. Line breaks, and padding at the end, are passed
/// over.
pub fn base64_decode(s: &str) -> (r: Result<Vec<u8>, NotBase64>)
    ensures
        match r {
            Ok(d) => base64_decoded(s@) == Some(d@),
            Err(_) => base64_decoded(s@) is None,
        },
{
    let chars = to_chars(s);
    let mut kept = String::new();
    let mut i: usize = 0;
    assert(s@.take(0) =~= Seq::<char>::empty());
    while i < chars.len()
        invariant
            i <= chars@.len(),
            chars@ == s@,
            kept@ == without_breaks(s@.take(i as int)),
        decreases chars@.len() - i,
    {
        assert(s@.take(i + 1).drop_last() =~= s@.take(i as int));
        if chars[i] != '\n' && chars[i] != '\r' {
            kept.push(chars[i]);
        }
        i = i + 1;
    }
    assert(s@.take(s@.len() as int) =~= s@);
    decode_bytes(trim_end_class(kept.as_str(), CharClass::Only('=')).as_bytes())
}

/// What the URL-safe base64 text `s` decodes to.
pub fn base64url_decode(s: &str) -> (r: Result<Vec<u8>, NotBase64>)
    ensures
        match r {
            Ok(d) => base64url_decoded(s@) == Some(d@),
            Err(_) => base64url_decoded(s@) is None,
        },
{
    let chars = to_chars(s);
    let mut standard = String::new();
    let mut i: usize = 0;
    while i < chars.len()
        invariant
            i <= chars@.len(),
            standard@.len() == i,
            forall|j: int| 0 <= j < i ==> standard@[j] == from_url_char(chars@[j]),
        decreases chars@.len() - i,
    {
        let c = chars[i];
        standard.push(
            if c == '-' {
                '+'
            } else if c == '_' {
                '/'
            } else {
                c
            },
        );
        i = i + 1;
    }
    assert(standard@ =~= from_url(s@));
    base64_decode(standard.as_str())
}

// ---------------------------------------------------------------------------
// Laws

/// A character of the URL-safe alphabet.
pub open spec fn is_url_char(c: char) -> bool {
    ||| 'A' <= c <= 'Z'
    ||| 'a' <= c <= 'z'
    ||| '0' <= c <= '9'
    ||| c == '-'
    ||| c == '_'
}

/// The URL-safe encoding holds letters, digits, `-` and `_` alone: no `+`, no `/`, no padding.
pub proof fn base64url_is_url_safe(d: Seq<u8>)
    ensures
        forall|i: int| 0 <= i < base64url(d).len() ==> is_url_char(#[trigger] base64url(d)[i]),
{
    assert forall|i: int| 0 <= i < base64url(d).len() implies is_url_char(
        #[trigger] base64url(d)[i],
    ) by {
        lemma_body_chars(d, i);
    }
}

proof fn lemma_sextet_inverse(v: int)
    requires
        0 <= v < 64,
    ensures
        sextet_value(sextet_char(v) as u8) == Some(v),
        sextet_char(v) as u32 <= 0x7f,
        sextet_char(v) != '=',
        sextet_char(v) != '\n',
        sextet_char(v) != '\r',
        from_url_char(to_url_char(sextet_char(v))) == sextet_char(v),
{
}

proof fn lemma_without_breaks_identity(s: Seq<char>)
    requires
        forall|i: int| 0 <= i < s.len() ==> s[i] != '\n' && s[i] != '\r',
    ensures
        without_breaks(s) == s,
    decreases s.len(),
{
    if s.len() > 0 {
        lemma_without_breaks_identity(s.drop_last());
        assert(s.drop_last().push(s.last()) =~= s);
    }
}

proof fn lemma_body_decodes(d: Seq<u8>)
    ensures
        decoded_bytes(encode_utf8(base64_body(d))) == Some(d),
        forall|k: int|
            0 <= k < base64_body(d).len() ==> {
                let c = #[trigger] base64_body(d)[k];
                &&& c != '='
                &&& c != '\n'
                &&& c != '\r'
                &&& from_url_char(to_url_char(c)) == c
            },
{
    let body = base64_body(d);
    let n = d.len() as int;
    assert forall|k: int| 0 <= k < body.len() implies {
        &&& sextet_value(#[trigger] body[k] as u8) == Some(sextet_at(d, k))
        &&& body[k] as u32 <= 0x7f
        &&& body[k] != '='
        &&& body[k] != '\n'
        &&& body[k] != '\r'
        &&& from_url_char(to_url_char(body[k])) == body[k]
    } by {
        lemma_body_chars(d, k);
        lemma_sextet_inverse(sextet_at(d, k));
    }
    assert(is_ascii_chars(body));
    is_ascii_chars_encode_utf8(body);
    let b = encode_utf8(body);
    assert(b.len() == body.len());
    assert forall|k: int| 0 <= k < b.len() implies sextet_value(#[trigger] b[k]) == Some(
        sextet_at(d, k),
    ) by {
        assert(b[k] == body[k] as u8);
    }
    assert(all_sextets(b));
    let out = decoded_bytes(b).unwrap();
    assert(out.len() == n);
    assert forall|i: int| 0 <= i < n implies out[i] == d[i] by {
        lemma_decoded_byte(d, b, i);
    }
    assert(out =~= d);
}

/// Decoding gives back what was encoded.
pub proof fn base64url_round_trip(d: Seq<u8>)
    ensures
        base64url_decoded(base64url(d)) == Some(d),
{
    let body = base64_body(d);
    lemma_body_decodes(d);
    assert(from_url(base64url(d)) =~= body);
    lemma_without_breaks_identity(body);
    lemma_trim_padding(body, Seq::empty());
    assert(body + Seq::<char>::empty() =~= body);
}

/// Decoding gives back what was encoded with padding, and the padding fills the last group of four.
pub proof fn base64_round_trip(d: Seq<u8>)
    ensures
        base64_decoded(base64(d)) == Some(d),
        base64(d).len() % 4 == 0,
        3 * base64(d).len() < 4 * (d.len() + 3),
{
    let body = base64_body(d);
    let pad = base64_padding(d.len() as int);
    lemma_body_decodes(d);
    assert forall|i: int| 0 <= i < (body + pad).len() implies (body + pad)[i] != '\n' && (body + pad)[i]
        != '\r' by {
        if i < body.len() {
            assert((body + pad)[i] == body[i]);
        } else {
            assert((body + pad)[i] == pad[i - body.len()]);
        }
    }
    lemma_without_breaks_identity(body + pad);
    lemma_trim_padding(body, pad);
}

/// Bytes in whole groups of three are encoded on their own: what follows does not change them.
pub proof fn groups_are_encoded_apart(a: Seq<u8>, b: Seq<u8>)
    requires
        a.len() % 3 == 0,
    ensures
        base64(a + b) == base64(a) + base64(b),
{
    let whole = base64_body(a + b);
    let parts = base64_body(a) + base64_body(b);
    let m = a.len() / 3 * 4;
    assert(base64_body(a).len() == m);
    assert(whole.len() == parts.len());
    assert forall|k: int| 0 <= k < whole.len() implies whole[k] == parts[k] by {
        let g = k / 4;
        if k < m {
            assert(3 * g + 2 < a.len());
            assert(byte_at(a + b, 3 * g) == byte_at(a, 3 * g));
            assert(byte_at(a + b, 3 * g + 1) == byte_at(a, 3 * g + 1));
            assert(byte_at(a + b, 3 * g + 2) == byte_at(a, 3 * g + 2));
            assert(parts[k] == base64_body(a)[k]);
        } else {
            let h = (k - m) / 4;
            assert(g == h + a.len() / 3);
            assert(byte_at(a + b, 3 * g) == byte_at(b, 3 * h));
            assert(byte_at(a + b, 3 * g + 1) == byte_at(b, 3 * h + 1));
            assert(byte_at(a + b, 3 * g + 2) == byte_at(b, 3 * h + 2));
            assert((k - m) % 4 == k % 4);
            assert(parts[k] == base64_body(b)[k - m]);
        }
    }
    assert(whole =~= parts);
    assert(base64(a + b) =~= base64(a) + base64(b));
}

/// The alphabet is the capital letters, the small letters and the digits, each in order, then `+`
/// and `/`; nothing else is read.
pub proof fn alphabet_is_in_order(v: int, w: int, b: u8)
    ensures
        0 <= v < w < 26 ==> 'A' <= sextet_char(v) < sextet_char(w) <= 'Z',
        26 <= v < w < 52 ==> 'a' <= sextet_char(v) < sextet_char(w) <= 'z',
        52 <= v < w < 62 ==> '0' <= sextet_char(v) < sextet_char(w) <= '9',
        sextet_char(62) == '+',
        sextet_char(63) == '/',
        0 <= v < 64 ==> sextet_value(sextet_char(v) as u8) == Some(v),
        sextet_value(b) matches Some(x) ==> 0 <= x < 64 && sextet_char(x) as u8 == b,
{
    if 0 <= v < 64 {
        lemma_sextet_inverse(v);
    }
}

/// Line breaks count for nothing, wherever they stand.
pub proof fn breaks_are_passed_over(a: Seq<char>, b: Seq<char>)
    ensures
        base64_decoded(a + seq!['\n'] + b) == base64_decoded(a + b),
        base64_decoded(a + seq!['\r'] + b) == base64_decoded(a + b),
{
    lemma_without_breaks_join(a + seq!['\n'], b);
    lemma_without_breaks_join(a + seq!['\r'], b);
    lemma_without_breaks_join(a, b);
    assert((a + seq!['\n']).drop_last() =~= a);
    assert((a + seq!['\r']).drop_last() =~= a);
}

proof fn lemma_without_breaks_join(a: Seq<char>, b: Seq<char>)
    ensures
        without_breaks(a + b) == without_breaks(a) + without_breaks(b),
    decreases b.len(),
{
    if b.len() == 0 {
        assert(a + b =~= a);
        assert(without_breaks(a) + without_breaks(b) =~= without_breaks(a));
    } else {
        assert((a + b).drop_last() =~= a + b.drop_last());
        lemma_without_breaks_join(a, b.drop_last());
        assert(without_breaks(a + b) =~= without_breaks(a) + without_breaks(b));
    }
}

/// Three bytes come back from the four sextets of their 24 bits.
proof fn lemma_regroup(x: u32, y: u32, z: u32)
    requires
        x < 256,
        y < 256,
        z < 256,
    ensures
        ({
            let bits = x * 65536 + y * 256 + z;
            &&& (bits / 262144) * 4 + (bits / 4096 % 64) / 16 == x
            &&& ((bits / 4096 % 64) * 16 + (bits / 64 % 64) / 4) % 256 == y
            &&& ((bits / 64 % 64) * 64 + bits % 64) % 256 == z
        }),
{
    let bits: u32 = (x * 65536 + y * 256 + z) as u32;
    assert((bits / 262144) * 4 + (bits / 4096 % 64) / 16 == x && ((bits / 4096 % 64) * 16 + (bits
        / 64 % 64) / 4) % 256 == y && ((bits / 64 % 64) * 64 + bits % 64) % 256 == z)
        by (bit_vector)
        requires
            x < 256,
            y < 256,
            z < 256,
            bits == x * 65536 + y * 256 + z,
    ;
}

proof fn lemma_sextet_is_read(d: Seq<u8>, b: Seq<u8>, k: int)
    requires
        0 <= k < b.len(),
        forall|j: int| 0 <= j < b.len() ==> sextet_value(#[trigger] b[j]) == Some(sextet_at(d, j)),
    ensures
        sextet_or_zero(b, k) == sextet_at(d, k),
{
    assert(sextet_value(b[k]) == Some(sextet_at(d, k)));
}

proof fn lemma_decoded_byte(d: Seq<u8>, b: Seq<u8>, i: int)
    requires
        b.len() == encoded_len(d.len() as int),
        forall|k: int| 0 <= k < b.len() ==> sextet_value(#[trigger] b[k]) == Some(sextet_at(d, k)),
        0 <= i < d.len(),
    ensures
        decoded_byte(b, i) == d[i],
{
    let g = i / 3;
    let j = 4 * g;
    let bits = group_bits(d, g);
    lemma_group_sextets(d, g);
    lemma_regroup(
        byte_at(d, 3 * g) as u32,
        byte_at(d, 3 * g + 1) as u32,
        byte_at(d, 3 * g + 2) as u32,
    );
    assert(i / 3 * 4 == j);
    if i % 3 == 0 {
        assert(i == 3 * g && j + 1 < b.len());
        lemma_sextet_is_read(d, b, j);
        lemma_sextet_is_read(d, b, j + 1);
        assert((bits / 262144) * 4 + (bits / 4096 % 64) / 16 == d[i]);
    } else if i % 3 == 1 {
        assert(i == 3 * g + 1 && j + 2 < b.len());
        lemma_sextet_is_read(d, b, j + 1);
        lemma_sextet_is_read(d, b, j + 2);
        assert(((bits / 4096 % 64) * 16 + (bits / 64 % 64) / 4) % 256 == d[i]);
    } else {
        assert(i == 3 * g + 2 && j + 3 < b.len());
        lemma_sextet_is_read(d, b, j + 2);
        lemma_sextet_is_read(d, b, j + 3);
        assert(((bits / 64 % 64) * 64 + bits % 64) % 256 == d[i]);
    }
}

} // verus!

//! Encodings and digests: hexadecimal, base64, SHA-256, random bytes and
//! X.509 certificates.

use base64::Engine;
use vstd::prelude::*;

verus! {

/// The lower-case hexadecimal digit of a number below sixteen.
pub open spec fn hex_digit(n: int) -> char {
    "0123456789abcdef"@[n]
}

/// Bytes in lower-case hexadecimal, two digits for each byte.
pub open spec fn hex_text(bytes: Seq<u8>) -> Seq<char>
    decreases bytes.len(),
{
    if bytes.len() == 0 {
        Seq::empty()
    } else {
        hex_text(bytes.drop_last()).push(hex_digit(bytes.last() as int / 16)).push(
            hex_digit(bytes.last() as int % 16),
        )
    }
}

/// A text of bytes in hexadecimal has two characters for each byte.
pub proof fn hex_text_length(bytes: Seq<u8>)
    ensures
        hex_text(bytes).len() == 2 * bytes.len(),
    decreases bytes.len(),
{
    if bytes.len() > 0 {
        hex_text_length(bytes.drop_last());
    }
}

/// Different bytes have different hexadecimal texts.
pub proof fn hex_text_is_injective(a: Seq<u8>, b: Seq<u8>)
    requires
        hex_text(a) == hex_text(b),
    ensures
        a == b,
    decreases a.len(),
{
    hex_text_length(a);
    hex_text_length(b);
    if a.len() > 0 {
        let x = hex_text(a);
        let y = hex_text(b);
        assert(x.drop_last().drop_last() == hex_text(a.drop_last()));
        assert(y.drop_last().drop_last() == hex_text(b.drop_last()));
        hex_text_is_injective(a.drop_last(), b.drop_last());
        assert(x.last() == hex_digit(a.last() as int % 16));
        assert(y.last() == hex_digit(b.last() as int % 16));
        assert(x.drop_last().last() == hex_digit(a.last() as int / 16));
        assert(y.drop_last().last() == hex_digit(b.last() as int / 16));
        reveal_strlit("0123456789abcdef");
        assert(a =~= a.drop_last().push(a.last()));
        assert(b =~= b.drop_last().push(b.last()));
    } else {
        assert(a =~= b);
    }
}

/// `hex::encode` writes each byte as two lower-case hexadecimal digits, the
/// high four bits first.
#[verifier::external_body]
pub(crate) fn encode_hex(bytes: &[u8]) -> (r: String)
    ensures
        r@ == hex_text(bytes@),
{
    hex::encode(bytes)
}

/// Whether a character is a hexadecimal digit of either case.
pub open spec fn is_hex_digit(c: char) -> bool {
    ('0' <= c && c <= '9') || ('a' <= c && c <= 'f') || ('A' <= c && c <= 'F')
}

/// The number that a hexadecimal digit of either case stands for.
pub open spec fn hex_value(c: char) -> int {
    if '0' <= c && c <= '9' {
        c as int - '0' as int
    } else if 'a' <= c && c <= 'f' {
        c as int - 'a' as int + 10
    } else {
        c as int - 'A' as int + 10
    }
}

/// Whether a text is thirty-two hexadecimal digits.
pub open spec fn is_hex16(text: Seq<char>) -> bool {
    text.len() == 32 && forall|i: int| 0 <= i < 32 ==> is_hex_digit(#[trigger] text[i])
}

/// The sixteen bytes that thirty-two hexadecimal digits stand for.
pub open spec fn hex16_bytes(text: Seq<char>) -> Seq<u8> {
    Seq::new(
        16,
        |i: int| (16 * hex_value(text[2 * i]) + hex_value(text[2 * i + 1])) as u8,
    )
}

/// `hex::decode_to_slice` into sixteen bytes succeeds exactly on thirty-two
/// hexadecimal digits of either case, and reads two of them for each byte, the
/// high four bits first. The error is dropped.
#[verifier::external_body]
pub(crate) fn decode_hex16(text: &str) -> (r: Result<[u8; 16], ()>)
    ensures
        r is Ok <==> is_hex16(text@),
        r is Ok ==> r->Ok_0@ == hex16_bytes(text@),
{
    let mut bytes = [0u8; 16];
    hex::decode_to_slice(text, &mut bytes).map(|()| bytes).map_err(|_| ())
}

/// The base64 digit of a number below sixty-four.
pub open spec fn base64_digit(n: int) -> char {
    "ABCDEFGHIJKLMNOPQRSTUVWXYZabcdefghijklmnopqrstuvwxyz0123456789+/"@[n]
}

/// Bytes in padded base64 of the standard alphabet.
pub open spec fn base64_text(bytes: Seq<u8>) -> Seq<char>
    decreases bytes.len(),
{
    if bytes.len() == 0 {
        Seq::empty()
    } else {
        let a = bytes[0] as int;
        let b = if bytes.len() > 1 { bytes[1] as int } else { 0 };
        let c = if bytes.len() > 2 { bytes[2] as int } else { 0 };
        let quad = seq![
            base64_digit(a / 4),
            base64_digit(a % 4 * 16 + b / 16),
            if bytes.len() > 1 { base64_digit(b % 16 * 4 + c / 64) } else { '=' },
            if bytes.len() > 2 { base64_digit(c % 64) } else { '=' },
        ];
        if bytes.len() <= 3 {
            quad
        } else {
            quad + base64_text(bytes.skip(3))
        }
    }
}

/// The number that a base64 digit stands for.
pub open spec fn base64_value(c: char) -> int {
    if 'A' <= c && c <= 'Z' {
        c as int - 'A' as int
    } else if 'a' <= c && c <= 'z' {
        c as int - 'a' as int + 26
    } else if '0' <= c && c <= '9' {
        c as int - '0' as int + 52
    } else if c == '+' {
        62
    } else {
        63
    }
}

proof fn base64_digit_reads_back(n: int)
    requires
        0 <= n < 64,
    ensures
        base64_value(base64_digit(n)) == n,
        base64_digit(n) != '=',
{
    reveal_strlit("ABCDEFGHIJKLMNOPQRSTUVWXYZabcdefghijklmnopqrstuvwxyz0123456789+/");
}

proof fn base64_bytes_from_digits(a: int, b: int, c: int)
    requires
        0 <= a < 256,
        0 <= b < 256,
        0 <= c < 256,
    ensures
        0 <= a / 4 < 64,
        0 <= a % 4 * 16 + b / 16 < 64,
        0 <= b % 16 * 4 + c / 64 < 64,
        0 <= c % 64 < 64,
        a == (a / 4) * 4 + (a % 4 * 16 + b / 16) / 16,
        b == (a % 4 * 16 + b / 16) % 16 * 16 + (b % 16 * 4 + c / 64) / 4,
        c == (b % 16 * 4 + c / 64) % 4 * 64 + c % 64,
{
}

/// The first four digits of a text in base64 tell the first three bytes, and
/// how many there are.
proof fn base64_first_bytes(x: Seq<u8>, y: Seq<u8>)
    requires
        x.len() > 0,
        y.len() > 0,
        base64_text(x) == base64_text(y),
    ensures
        x[0] == y[0],
        x.len() > 1 <==> y.len() > 1,
        x.len() > 1 ==> x[1] == y[1],
        x.len() > 2 <==> y.len() > 2,
        x.len() > 2 ==> x[2] == y[2],
        x.len() > 3 <==> y.len() > 3,
        x.len() > 3 ==> base64_text(x.skip(3)) == base64_text(y.skip(3)),
{
    let s = base64_text(x);
    let t = base64_text(y);
    let xa = x[0] as int;
    let xb = if x.len() > 1 { x[1] as int } else { 0 };
    let xc = if x.len() > 2 { x[2] as int } else { 0 };
    let ya = y[0] as int;
    let yb = if y.len() > 1 { y[1] as int } else { 0 };
    let yc = if y.len() > 2 { y[2] as int } else { 0 };
    base64_bytes_from_digits(xa, xb, xc);
    base64_bytes_from_digits(ya, yb, yc);
    assert(s[0] == base64_digit(xa / 4));
    assert(t[0] == base64_digit(ya / 4));
    assert(s[1] == base64_digit(xa % 4 * 16 + xb / 16));
    assert(t[1] == base64_digit(ya % 4 * 16 + yb / 16));
    base64_digit_reads_back(xa / 4);
    base64_digit_reads_back(ya / 4);
    base64_digit_reads_back(xa % 4 * 16 + xb / 16);
    base64_digit_reads_back(ya % 4 * 16 + yb / 16);
    base64_digit_reads_back(xb % 16 * 4 + xc / 64);
    base64_digit_reads_back(yb % 16 * 4 + yc / 64);
    base64_digit_reads_back(xc % 64);
    base64_digit_reads_back(yc % 64);
    assert(s[2] == if x.len() > 1 { base64_digit(xb % 16 * 4 + xc / 64) } else { '=' });
    assert(t[2] == if y.len() > 1 { base64_digit(yb % 16 * 4 + yc / 64) } else { '=' });
    assert(s[3] == if x.len() > 2 { base64_digit(xc % 64) } else { '=' });
    assert(t[3] == if y.len() > 2 { base64_digit(yc % 64) } else { '=' });
    if x.len() > 3 {
        base64_text_length(x.skip(3));
        assert(s.skip(4) =~= base64_text(x.skip(3)));
    }
    if y.len() > 3 {
        base64_text_length(y.skip(3));
        assert(t.skip(4) =~= base64_text(y.skip(3)));
    }
}

/// A text of some bytes in base64 has at least four characters.
proof fn base64_text_length(bytes: Seq<u8>)
    ensures
        bytes.len() > 0 ==> base64_text(bytes).len() >= 4,
{
}

/// Different bytes have different base64 texts, so decoding an encoded text
/// gives back the bytes.
pub proof fn base64_text_is_injective(x: Seq<u8>, y: Seq<u8>)
    requires
        base64_text(x) == base64_text(y),
    ensures
        x == y,
    decreases x.len(),
{
    base64_text_length(x);
    base64_text_length(y);
    if x.len() > 0 && y.len() > 0 {
        base64_first_bytes(x, y);
        if x.len() > 3 {
            base64_text_is_injective(x.skip(3), y.skip(3));
            assert forall|i: int| 0 <= i < x.len() implies x[i] == y[i] by {
                if i >= 3 {
                    assert(x.skip(3)[i - 3] == y.skip(3)[i - 3]);
                }
            }
            assert(x.skip(3).len() == y.skip(3).len());
        }
        assert(x =~= y);
    } else {
        assert(base64_text(Seq::<u8>::empty()).len() == 0);
        assert(x =~= y);
    }
}

/// `base64`'s standard engine encodes bytes with the standard alphabet and
/// with padding. It panics where the encoded length does not fit in memory.
#[verifier::external_body]
pub(crate) fn encode_base64(bytes: &[u8]) -> (r: String)
    requires
        bytes@.len() <= usize::MAX / 4,
    ensures
        r@ == base64_text(bytes@),
{
    base64::engine::general_purpose::STANDARD.encode(bytes)
}

/// What the standard engine of `base64` says of a text that it cannot decode.
pub uninterp spec fn base64_complaint(text: Seq<char>) -> Seq<char>;

/// `base64`'s standard engine decodes exactly the texts that it would encode:
/// it asks for canonical padding and refuses stray bits in the last digit.
/// Its complaint about any other text depends on the text alone.
#[verifier::external_body]
pub(crate) fn decode_base64(text: &str) -> (r: Result<Vec<u8>, String>)
    ensures
        r is Ok <==> exists|bytes: Seq<u8>| #[trigger] base64_text(bytes) == text@,
        r is Ok ==> base64_text(r->Ok_0@) == text@,
        r is Err ==> r->Err_0@ == base64_complaint(text@),
{
    base64::engine::general_purpose::STANDARD.decode(text).map_err(|error| error.to_string())
}

/// The SHA-256 digest of a message.
pub uninterp spec fn sha256_digest(message: Seq<u8>) -> Seq<u8>;

/// `ring::digest::digest` with SHA-256 computes the digest of a message, which
/// has thirty-two bytes. It panics on a message of two to the sixty-first
/// bytes or more.
#[verifier::external_body]
pub(crate) fn sha256(message: &[u8]) -> (r: Vec<u8>)
    requires
        message@.len() < 0x2000_0000_0000_0000,
    ensures
        r@ == sha256_digest(message@),
        r@.len() == 32,
{
    ring::digest::digest(&ring::digest::SHA256, message).as_ref().to_vec()
}

/// `ring::rand::SystemRandom` fills sixteen bytes from the system's source of
/// randomness, or fails. Nothing is claimed of the bytes.
#[verifier::external_body]
pub(crate) fn random16() -> (r: Option<[u8; 16]>)
{
    let mut bytes = [0u8; 16];
    ring::rand::SecureRandom::fill(&ring::rand::SystemRandom::new(), &mut bytes).ok().map(|()| bytes)
}

/// What is read of a certificate: when it expires, in seconds since the Unix
/// epoch, its issuer and its serial number; or why it could not be parsed.
pub uninterp spec fn certificate_contents(
    der: Seq<u8>,
) -> Result<(i64, Seq<char>, Seq<char>), Seq<char>>;

/// The facts that are read of a certificate.
pub struct CertificateFacts {
    /// End of validity, in seconds since the Unix epoch.
    pub not_after: i64,
    /// Distinguished name of the issuer.
    pub issuer: String,
    /// Serial number in hexadecimal.
    pub serial: String,
}

/// The contents that parsed facts, or a parser's complaint, stand for.
pub open spec fn contents_of(
    parsed: Result<CertificateFacts, String>,
) -> Result<(i64, Seq<char>, Seq<char>), Seq<char>> {
    match parsed {
        Ok(facts) => Ok((facts.not_after, facts.issuer@, facts.serial@)),
        Err(complaint) => Err(complaint@),
    }
}

/// `x509_parser::parse_x509_certificate` parses a DER certificate; its
/// expiry, issuer and serial, or the parser's complaint, depend on the bytes
/// alone.
#[verifier::external_body]
pub(crate) fn parse_certificate(der: &[u8]) -> (r: Result<CertificateFacts, String>)
    ensures
        contents_of(r) == certificate_contents(der@),
{
    match x509_parser::parse_x509_certificate(der) {
        Ok((_, certificate)) => Ok(
            CertificateFacts {
                not_after: certificate.validity().not_after.timestamp(),
                issuer: certificate.issuer().to_string(),
                serial: certificate.raw_serial_as_string(),
            },
        ),
        Err(error) => Err(error.to_string()),
    }
}

} // verus!

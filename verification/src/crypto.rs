//! Digests, encodings, chance and time: what the library has from elsewhere.

use base64::Engine;
use rand::Rng;
use vstd::prelude::*;

use crate::text;

verus! {

/// The SHA-256 digest of a byte string, as `sha2::Sha256::digest` computes it.
pub uninterp spec fn sha256(bytes: Seq<u8>) -> Seq<u8>;

/// What the `STANDARD` engine of the `base64` crate decodes a text to, or the
/// text of its error.
pub uninterp spec fn base64_decode(text: Seq<u8>) -> Result<Seq<u8>, Seq<char>>;

/// The text that `String::from_utf8_lossy` makes of a byte string.
pub uninterp spec fn utf8_lossy(bytes: Seq<u8>) -> Seq<char>;

/// The digit `d` of the URL-safe base64 alphabet.
pub open spec fn base64url_char(d: int) -> char {
    if d < 26 {
        (65 + d) as char
    } else if d < 52 {
        (71 + d) as char
    } else if d < 62 {
        (d - 4) as char
    } else if d == 62 {
        '-'
    } else {
        '_'
    }
}

/// The byte at `i`, or zero behind the end.
pub open spec fn byte_or_zero(bytes: Seq<u8>, i: int) -> int {
    if i < bytes.len() {
        bytes[i] as int
    } else {
        0
    }
}

/// The group of six bits with the number `i`, counted from the start of a byte
/// string that zeros follow.
pub open spec fn sextet(bytes: Seq<u8>, i: int) -> int {
    let at = i / 4 * 3;
    let three = byte_or_zero(bytes, at) * 0x1_0000 + byte_or_zero(bytes, at + 1) * 0x100
        + byte_or_zero(bytes, at + 2);
    if i % 4 == 0 {
        three / 0x4_0000
    } else if i % 4 == 1 {
        three / 0x1000 % 64
    } else if i % 4 == 2 {
        three / 64 % 64
    } else {
        three % 64
    }
}

/// A byte string in URL-safe base64 without padding.
pub open spec fn base64url(bytes: Seq<u8>) -> Seq<char> {
    Seq::new((4 * bytes.len() + 2) / 3, |i: int| base64url_char(sextet(bytes, i)))
}

/// `sha2::Sha256::digest`: the digest of a byte string, 32 bytes that depend on
/// the byte string alone.
#[verifier::external_body]
pub(crate) fn digest(bytes: &[u8]) -> (r: Vec<u8>)
    ensures
        r@ == sha256(bytes@),
        r@.len() == 32,
{
    <sha2::Sha256 as sha2::Digest>::digest(bytes).to_vec()
}

/// `base64::engine::general_purpose::URL_SAFE_NO_PAD.encode`: the byte string in
/// URL-safe base64 without padding.
#[verifier::external_body]
pub(crate) fn encode_base64url(bytes: &[u8]) -> (r: String)
    ensures
        r@ == base64url(bytes@),
{
    base64::engine::general_purpose::URL_SAFE_NO_PAD.encode(bytes)
}

/// `base64::engine::general_purpose::STANDARD.decode`: the bytes that a text in
/// padded base64 stands for, or what is wrong with it. The result depends on
/// the text alone.
#[verifier::external_body]
pub(crate) fn decode_base64(text: &[u8]) -> (r: Result<Vec<u8>, String>)
    ensures
        base64_decode(text@) == (match r {
            Ok(b) => Ok::<Seq<u8>, Seq<char>>(b@),
            Err(e) => Err(e@),
        }),
{
    base64::engine::general_purpose::STANDARD.decode(text).map_err(|e| e.to_string())
}

/// `rand::Rng::fill_bytes` on the generator of the thread: `n` bytes by chance.
/// Nothing is said of what they are. Where the operating system has no
/// randomness to seed the generator with, it panics.
#[verifier::external_body]
pub(crate) fn random_bytes(n: usize) -> (r: Vec<u8>)
    requires
        n <= 0x1000,
    ensures
        r@.len() == n,
{
    let mut bytes = vec![0u8; n];
    rand::rng().fill_bytes(&mut bytes);
    bytes
}

/// `std::time::SystemTime::elapsed`, since the start of 1970, in seconds; nothing
/// if the clock is set to before that.
#[verifier::external_body]
pub(crate) fn unix_time() -> (r: Option<u64>) {
    std::time::UNIX_EPOCH.elapsed().ok().map(|d| d.as_secs())
}

/// Whether `s` is the text of a random UUID: hexadecimal digits in lower case, in
/// groups of eight, four, four, four and twelve with hyphens between them, with
/// the version and the variant of a random one.
pub open spec fn random_uuid_text(s: Seq<char>) -> bool {
    &&& s.len() == 36
    &&& forall|i: int|
        0 <= i < 36 ==> {
            let c = #[trigger] s[i];
            if i == 8 || i == 13 || i == 18 || i == 23 {
                c == '-'
            } else {
                '0' <= c <= '9' || 'a' <= c <= 'f'
            }
        }
    &&& s[14] == '4'
    &&& s[19] == '8' || s[19] == '9' || s[19] == 'a' || s[19] == 'b'
}

/// `uuid::Uuid::new_v4`, as text: a UUID by chance. Only its form is known. Where
/// the operating system has no randomness, it panics.
#[verifier::external_body]
pub(crate) fn random_uuid() -> (r: String)
    ensures
        random_uuid_text(r@),
{
    uuid::Uuid::new_v4().to_string()
}

/// `String::from_utf8_lossy`: the text that a byte string encodes in UTF-8. What
/// is not valid in it is replaced by a character of three bytes; how depends on
/// the byte string alone.
#[verifier::external_body]
pub(crate) fn lossy_text(bytes: &[u8]) -> (r: String)
    ensures
        r@ == utf8_lossy(bytes@),
        vstd::utf8::valid_utf8(bytes@) ==> r@ == vstd::utf8::decode_utf8(bytes@),
        text::utf8(r@).len() <= 3 * bytes@.len(),
{
    String::from_utf8_lossy(bytes).into_owned()
}

/// Every character of a text in URL-safe base64 is a letter, a digit, `-` or
/// `_`.
pub proof fn lemma_base64url_alphabet(bytes: Seq<u8>, i: int)
    requires
        0 <= i < base64url(bytes).len(),
    ensures
        ({
            let c = base64url(bytes)[i];
            'A' <= c <= 'Z' || 'a' <= c <= 'z' || '0' <= c <= '9' || c == '-' || c == '_'
        }),
{
    let d = sextet(bytes, i);
    assert(0 <= d < 64);
}

proof fn lemma_base64url_char_injective(d: int, e: int)
    requires
        0 <= d < 64,
        0 <= e < 64,
        base64url_char(d) == base64url_char(e),
    ensures
        d == e,
{
}

proof fn lemma_split(a: int, b: int, c: int)
    requires
        0 <= a < 256,
        0 <= b < 256,
        0 <= c < 256,
    ensures
        (a * 0x1_0000 + b * 0x100 + c) / 0x4_0000 == a / 4,
        (a * 0x1_0000 + b * 0x100 + c) / 0x1000 % 64 == a % 4 * 16 + b / 16,
        (a * 0x1_0000 + b * 0x100 + c) / 64 % 64 == b % 16 * 4 + c / 64,
        (a * 0x1_0000 + b * 0x100 + c) % 64 == c % 64,
{
    let t = a * 0x1_0000 + b * 0x100 + c;
    vstd::arithmetic::div_mod::lemma_fundamental_div_mod_converse(t, 0x4_0000, a / 4, a % 4 * 0x1_0000 + b * 0x100 + c);
    vstd::arithmetic::div_mod::lemma_fundamental_div_mod_converse(t, 0x1000, a * 16 + b / 16, b % 16 * 0x100 + c);
    vstd::arithmetic::div_mod::lemma_fundamental_div_mod_converse(a * 16 + b / 16, 64, a / 4, a % 4 * 16 + b / 16);
    vstd::arithmetic::div_mod::lemma_fundamental_div_mod_converse(t, 64, a * 1024 + b * 4 + c / 64, c % 64);
    vstd::arithmetic::div_mod::lemma_fundamental_div_mod_converse(
        a * 1024 + b * 4 + c / 64,
        64,
        a * 16 + b / 16,
        b % 16 * 4 + c / 64,
    );
}

proof fn lemma_sextets(bytes: Seq<u8>, g: int)
    requires
        0 <= g,
        3 * g < bytes.len(),
    ensures
        ({
            let a = byte_or_zero(bytes, 3 * g);
            let b = byte_or_zero(bytes, 3 * g + 1);
            let c = byte_or_zero(bytes, 3 * g + 2);
            &&& sextet(bytes, 4 * g) == a / 4
            &&& sextet(bytes, 4 * g + 1) == a % 4 * 16 + b / 16
            &&& sextet(bytes, 4 * g + 2) == b % 16 * 4 + c / 64
            &&& sextet(bytes, 4 * g + 3) == c % 64
        }),
{
    let a = byte_or_zero(bytes, 3 * g);
    let b = byte_or_zero(bytes, 3 * g + 1);
    let c = byte_or_zero(bytes, 3 * g + 2);
    lemma_split(a, b, c);
    assert(4 * g / 4 == g && (4 * g + 1) / 4 == g && (4 * g + 2) / 4 == g && (4 * g + 3) / 4 == g);
}

/// No byte is lost in URL-safe base64: byte strings of one length with the same
/// text are the same.
pub proof fn law_base64url_keeps_every_byte(a: Seq<u8>, b: Seq<u8>)
    requires
        a.len() == b.len(),
        base64url(a) == base64url(b),
    ensures
        a == b,
{
    let n = (4 * a.len() + 2) / 3;
    assert forall|i: int| 0 <= i < n implies sextet(a, i) == sextet(b, i) by {
        assert(base64url(a)[i] == base64url_char(sextet(a, i)));
        assert(base64url(b)[i] == base64url_char(sextet(b, i)));
        lemma_base64url_char_injective(sextet(a, i), sextet(b, i));
    }
    assert forall|k: int| 0 <= k < a.len() implies a[k] == b[k] by {
        let g = k / 3;
        lemma_sextets(a, g);
        lemma_sextets(b, g);
        assert(4 * g + 1 < n);
        assert(sextet(a, 4 * g) == sextet(b, 4 * g));
        assert(sextet(a, 4 * g + 1) == sextet(b, 4 * g + 1));
        if k % 3 >= 1 {
            assert(4 * g + 2 < n);
            assert(sextet(a, 4 * g + 2) == sextet(b, 4 * g + 2));
        }
        if k % 3 == 2 {
            assert(4 * g + 3 < n);
            assert(sextet(a, 4 * g + 3) == sextet(b, 4 * g + 3));
        }
    }
    assert(a =~= b);
}

} // verus!

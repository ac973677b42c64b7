//! Bodies travel inside JSON messages as base64 text.
use vstd::prelude::*;
use vstd::utf8::{encode_utf8, is_ascii_chars, is_ascii_chars_encode_utf8};

verus! {

/// The base64 digit for a value below 64 (RFC 4648: `A`–`Z`, `a`–`z`,
/// `0`–`9`, `+`, `/`).
pub open spec fn base64_digit(v: int) -> char {
    if v < 26 {
        (65 + v) as char
    } else if v < 52 {
        (97 + v - 26) as char
    } else if v < 62 {
        (48 + v - 52) as char
    } else if v == 62 {
        '+'
    } else {
        '/'
    }
}

/// Standard base64 with padding, as RFC 4648 writes it: each group of three
/// bytes becomes four digits; a last group of one or two bytes is padded
/// with `==` or `=`; no line breaks.
pub open spec fn base64_text(b: Seq<u8>) -> Seq<char>
    decreases b.len(),
{
    if b.len() == 0 {
        Seq::empty()
    } else if b.len() == 1 {
        let x = b[0] as int;
        seq![base64_digit(x / 4), base64_digit((x % 4) * 16), '=', '=']
    } else if b.len() == 2 {
        let x = b[0] as int;
        let y = b[1] as int;
        seq![base64_digit(x / 4), base64_digit((x % 4) * 16 + y / 16), base64_digit((y % 16) * 4), '=']
    } else {
        let x = b[0] as int;
        let y = b[1] as int;
        let z = b[2] as int;
        seq![
            base64_digit(x / 4),
            base64_digit((x % 4) * 16 + y / 16),
            base64_digit((y % 16) * 4 + z / 64),
            base64_digit(z % 64),
        ] + base64_text(b.subrange(3, b.len() as int))
    }
}

/// The length `openssl::base64::encode_block` reserves for `n` bytes: four
/// characters per started group of three, and a terminating nul.
pub open spec fn encoded_buffer_len(n: nat) -> int {
    (n / 3) * 4 + (if n % 3 == 0 {
        0int
    } else {
        4int
    }) + 1
}

/// The number of characters of the base64 text of `n` bytes: four per
/// started group of three.
pub open spec fn base64_len(n: nat) -> nat {
    ((n + 2) / 3 * 4) as nat
}

proof fn lemma_base64_digit_ascii(v: int)
    requires
        0 <= v < 64,
    ensures
        '\0' <= base64_digit(v) <= '\u{7f}',
{
}

/// The base64 text of `b` has `base64_len(b.len())` characters, all ASCII,
/// so it takes as many bytes as characters.
pub proof fn lemma_base64_text(b: Seq<u8>)
    ensures
        base64_text(b).len() == base64_len(b.len()),
        is_ascii_chars(base64_text(b)),
        encode_utf8(base64_text(b)).len() == base64_len(b.len()),
    decreases b.len(),
{
    let t = base64_text(b);
    if b.len() == 0 {
    } else if b.len() == 1 {
        let x = b[0] as int;
        lemma_base64_digit_ascii(x / 4);
        lemma_base64_digit_ascii((x % 4) * 16);
    } else if b.len() == 2 {
        let x = b[0] as int;
        let y = b[1] as int;
        lemma_base64_digit_ascii(x / 4);
        lemma_base64_digit_ascii((x % 4) * 16 + y / 16);
        lemma_base64_digit_ascii((y % 16) * 4);
    } else {
        let x = b[0] as int;
        let y = b[1] as int;
        let z = b[2] as int;
        lemma_base64_digit_ascii(x / 4);
        lemma_base64_digit_ascii((x % 4) * 16 + y / 16);
        lemma_base64_digit_ascii((y % 16) * 4 + z / 64);
        lemma_base64_digit_ascii(z % 64);
        let rest = b.subrange(3, b.len() as int);
        lemma_base64_text(rest);
        let head = seq![
            base64_digit(x / 4),
            base64_digit((x % 4) * 16 + y / 16),
            base64_digit((y % 16) * 4 + z / 64),
            base64_digit(z % 64),
        ];
        assert(t == head + base64_text(rest));
        assert forall|i: int| 0 <= i < t.len() implies '\0' <= #[trigger] t[i] <= '\u{7f}' by {
            if i >= 4 {
                assert(t[i] == base64_text(rest)[i - 4]);
            }
        }
    }
    is_ascii_chars_encode_utf8(t);
}

/// What `serialize` writes can be read by `deserialize`: where `serialize`
/// accepts `n` bytes, their base64 text is within the length that
/// `deserialize` accepts.
pub proof fn law_serialized_text_fits(n: nat)
    requires
        n <= 2_147_483_647,
        encoded_buffer_len(n) <= 2_147_483_647,
    ensures
        base64_len(n) <= 2_147_483_647,
{
}

/// What `openssl::base64::decode_block` reads from `text`; `None` where it
/// refuses the text.
pub uninterp spec fn base64_decoded(text: Seq<char>) -> Option<Seq<u8>>;

/// Calls `openssl::base64::encode_block` (`EVP_EncodeBlock`). Claims the
/// text is the standard padded base64 of `bytes`. The function asserts that
/// the input length and the buffer length it computes fit a C `int`, which
/// `requires` asks for.
#[verifier::external_body]
fn encode_block(bytes: &[u8]) -> (r: String)
    requires
        bytes@.len() <= 2_147_483_647,
        encoded_buffer_len(bytes@.len()) <= 2_147_483_647,
    ensures
        r@ == base64_text(bytes@),
{
    openssl::base64::encode_block(bytes)
}

/// Calls `openssl::base64::decode_block` (`EVP_DecodeBlock`, then one byte
/// dropped per trailing `=`). Claims the outcome is `base64_decoded(text@)`,
/// and that standard padded base64 text gives back the bytes it was written
/// from. The function asserts that the (trimmed) input length fits a C
/// `int`, which `requires` asks for.
#[verifier::external_body]
fn decode_block(text: &str) -> (r: Option<Vec<u8>>)
    requires
        text.len() <= 2_147_483_647,
    ensures
        r matches Some(v) ==> base64_decoded(text@) == Some(v@),
        r is None ==> base64_decoded(text@) is None,
        r is None ==> forall|b: Seq<u8>| #[trigger] base64_text(b) != text@,
        r matches Some(v) ==> forall|b: Seq<u8>| #[trigger] base64_text(b) == text@ ==> v@ == b,
{
    openssl::base64::decode_block(text).ok()
}

/// A body that is not base64.
#[derive(Debug, PartialEq, Eq)]
pub struct Base64Error;

/// Writes a body as standard padded base64 text.
pub fn serialize(bytes: &[u8]) -> (r: String)
    requires
        bytes@.len() <= 2_147_483_647,
        encoded_buffer_len(bytes@.len()) <= 2_147_483_647,
    ensures
        r@ == base64_text(bytes@),
        r@.len() == base64_len(bytes@.len()),
        is_ascii_chars(r@),
        encode_utf8(r@).len() == base64_len(bytes@.len()),
{
    let r = encode_block(bytes);
    proof {
        lemma_base64_text(bytes@);
    }
    r
}

/// Reads a body from base64 text: what `serialize` wrote for a body reads
/// back as that body.
pub fn deserialize(text: &str) -> (r: Result<Vec<u8>, Base64Error>)
    requires
        text.len() <= 2_147_483_647,
    ensures
        r matches Ok(v) ==> base64_decoded(text@) == Some(v@),
        r is Err <==> base64_decoded(text@) is None,
        forall|b: Seq<u8>| #[trigger] base64_text(b) == text@ ==> (r matches Ok(v) && v@ == b),
{
    match decode_block(text) {
        Some(v) => Ok(v),
        None => Err(Base64Error),
    }
}

} // verus!

//! Content identifiers: a prefix followed by the first sixteen lower-case hex
//! digits of the SHA-256 digest of a canonical text.
use vstd::prelude::*;
use crate::text::{chars_of, push_chars, push_str, string_of};

verus! {

/// The SHA-256 digest of a byte string.
pub uninterp spec fn sha256(bytes: Seq<u8>) -> Seq<u8>;

/// `sha2::Sha256::digest` of `bytes`: the digest is a function of the bytes
/// alone, and its output size is 32 bytes.
#[verifier::external_body]
pub(crate) fn sha256_digest(bytes: &[u8]) -> (r: Vec<u8>)
    ensures
        r@ == sha256(bytes@),
        r@.len() == 32,
{
    <sha2::Sha256 as sha2::Digest>::digest(bytes).to_vec()
}

pub open spec fn hex_digit(n: int) -> char {
    if n < 10 {
        ((n + 48) as u8) as char
    } else {
        ((n + 87) as u8) as char
    }
}

/// Two lower-case hex digits per byte.
pub open spec fn hex_lower(bytes: Seq<u8>) -> Seq<char>
    decreases bytes.len(),
{
    if bytes.len() == 0 {
        seq![]
    } else {
        hex_lower(bytes.drop_last()) + seq![
            hex_digit(bytes.last() as int / 16),
            hex_digit(bytes.last() as int % 16),
        ]
    }
}

fn hex_digit_exec(n: u8) -> (r: char)
    requires
        n < 16,
    ensures
        r == hex_digit(n as int),
{
    if n < 10 {
        (n + 48) as char
    } else {
        (n + 87) as char
    }
}

/// `bytes` in lower-case hexadecimal.
pub fn hex_lower_exec(bytes: &[u8]) -> (r: Vec<char>)
    ensures
        r@ == hex_lower(bytes@),
{
    let mut r: Vec<char> = Vec::new();
    let mut i: usize = 0;
    while i < bytes.len()
        invariant
            i <= bytes.len(),
            r@ == hex_lower(bytes@.take(i as int)),
        decreases bytes.len() - i,
    {
        let b = bytes[i];
        r.push(hex_digit_exec(b / 16));
        r.push(hex_digit_exec(b % 16));
        assert(bytes@.take(i + 1).drop_last() =~= bytes@.take(i as int));
        assert(r@ =~= hex_lower(bytes@.take(i + 1)));
        i = i + 1;
    }
    assert(bytes@.take(bytes.len() as int) =~= bytes@);
    r
}

/// The decimal digits of `n`.
pub open spec fn decimal(n: nat) -> Seq<char>
    decreases n,
{
    if n < 10 {
        seq![hex_digit(n as int)]
    } else {
        decimal(n / 10) + seq![hex_digit((n % 10) as int)]
    }
}

/// `n` in decimal, as `usize`'s `Display` writes it.
pub fn decimal_exec(n: usize) -> (r: Vec<char>)
    ensures
        r@ == decimal(n as nat),
    decreases n,
{
    if n < 10 {
        let mut r: Vec<char> = Vec::new();
        r.push(hex_digit_exec(n as u8));
        r
    } else {
        let mut r = decimal_exec(n / 10);
        r.push(hex_digit_exec((n % 10) as u8));
        r
    }
}

/// `n` in decimal, as `u64`'s `Display` writes it.
pub fn decimal_u64(n: u64) -> (r: Vec<char>)
    ensures
        r@ == decimal(n as nat),
    decreases n,
{
    if n < 10 {
        let mut r: Vec<char> = Vec::new();
        r.push(hex_digit_exec(n as u8));
        r
    } else {
        let mut r = decimal_u64(n / 10);
        r.push(hex_digit_exec((n % 10) as u8));
        r
    }
}

/// `prefix` followed by the first 16 hex digits of the SHA-256 of `text`.
pub open spec fn short_digest_spec(prefix: Seq<char>, text: Seq<char>) -> Seq<char> {
    prefix + hex_lower(sha256(vstd::utf8::encode_utf8(text)).take(8))
}

/// A short content identifier for `text`.
pub fn short_digest(prefix: &str, text: &[char]) -> (r: String)
    ensures
        r@ == short_digest_spec(prefix@, text@),
{
    let s = string_of(text);
    let digest = sha256_digest(s.as_str().as_bytes());
    let mut first: Vec<u8> = Vec::new();
    let mut i: usize = 0;
    while i < 8
        invariant
            i <= 8,
            digest@.len() == 32,
            first@ == digest@.take(i as int),
        decreases 8 - i,
    {
        first.push(digest[i]);
        assert(digest@.take(i + 1) =~= digest@.take(i as int).push(digest@[i as int]));
        i = i + 1;
    }
    let hex = hex_lower_exec(&first);
    let mut out: Vec<char> = Vec::new();
    push_str(&mut out, prefix);
    push_chars(&mut out, &hex);
    string_of(&out)
}

/// `sha256:` and the lower-case hex SHA-256 digest of `bytes`.
pub open spec fn digest_bytes_spec(bytes: Seq<u8>) -> Seq<char> {
    "sha256:"@ + hex_lower(sha256(bytes))
}

/// The content digest of a byte string.
pub fn digest_bytes(bytes: &[u8]) -> (r: String)
    ensures
        r@ == digest_bytes_spec(bytes@),
{
    let digest = sha256_digest(bytes);
    let hex = hex_lower_exec(&digest);
    let mut out: Vec<char> = Vec::new();
    push_str(&mut out, "sha256:");
    push_chars(&mut out, &hex);
    string_of(&out)
}

/// The content digest of a text: that of its UTF-8 bytes.
pub fn digest_text(text: &str) -> (r: String)
    ensures
        r@ == digest_bytes_spec(vstd::utf8::encode_utf8(text@)),
{
    digest_bytes(text.as_bytes())
}

/// A field of a canonical text: its length, a colon, the field and a comma.
pub open spec fn frame(s: Seq<char>) -> Seq<char> {
    decimal(s.len()) + ":"@ + s + ","@
}

/// The framed fields `items[..n]`, one after the other.
pub open spec fn frame_items(items: Seq<Seq<char>>, n: int) -> Seq<char>
    decreases n,
{
    if n <= 0 {
        seq![]
    } else {
        frame_items(items, n - 1) + frame(items[n - 1])
    }
}

/// A list of fields: its length, a colon and each field framed.
pub open spec fn frame_list(items: Seq<Seq<char>>) -> Seq<char> {
    decimal(items.len()) + ":"@ + frame_items(items, items.len() as int)
}

/// Appends `frame(s)` to `out`.
pub fn push_frame(out: &mut Vec<char>, s: &[char])
    ensures
        final(out)@ == old(out)@ + frame(s@),
{
    let d = decimal_exec(s.len());
    push_chars(out, &d);
    push_str(out, ":");
    push_chars(out, s);
    push_str(out, ",");
    proof {
        reveal_strlit(":");
        reveal_strlit(",");
    }
    assert(out@ =~= old(out)@ + frame(s@));
}

/// Appends `frame_list(items)` to `out`.
pub fn push_frame_list(out: &mut Vec<char>, items: &[Vec<char>])
    ensures
        final(out)@ == old(out)@ + frame_list(crate::text::texts(items@)),
{
    let ghost t = crate::text::texts(items@);
    let d = decimal_exec(items.len());
    push_chars(out, &d);
    push_str(out, ":");
    proof {
        reveal_strlit(":");
    }
    let ghost base = out@;
    let mut i: usize = 0;
    assert(frame_items(t, 0) =~= Seq::<char>::empty());
    assert(out@ =~= base + frame_items(t, 0));
    while i < items.len()
        invariant
            i <= items.len(),
            t == crate::text::texts(items@),
            base == old(out)@ + decimal(items@.len() as nat) + ":"@,
            out@ == base + frame_items(t, i as int),
        decreases items.len() - i,
    {
        push_frame(out, &items[i]);
        assert(t[i as int] == items@[i as int]@);
        assert(out@ =~= base + frame_items(t, i + 1));
        i = i + 1;
    }
    assert(out@ =~= old(out)@ + frame_list(t));
}

} // verus!

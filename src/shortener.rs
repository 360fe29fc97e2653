//! The URL shortener's own logic around generated identifiers: the records it keeps
//! and answers with, and how an identifier becomes a short code and a public link.
//! Storage and transport are the host's.
use vstd::prelude::*;
use vstd::string::StringExecFns;

verus! {

/// A stored mapping between a long URL and its short code, keyed by the identifier
/// that the short code was made from.
pub struct Url {
    pub id: i64,
    pub long_url: String,
    pub short_url: String,
}

/// The answer to a request to shorten a URL.
pub struct ShortenResponse {
    pub short_url: String,
}

impl ShortenResponse {
    pub fn new(short_url: String) -> (r: ShortenResponse)
        ensures
            r.short_url@ == short_url@,
    {
        ShortenResponse { short_url }
    }
}

/// The base-62 digit for `d < 62`: `0`-`9`, then `A`-`Z`, then `a`-`z`.
pub open spec fn base62_digit(d: nat) -> char {
    if d < 10 {
        (48 + d) as char
    } else if d < 36 {
        (55 + d) as char
    } else {
        (61 + d) as char
    }
}

/// `n` written in base 62, most significant digit first, without leading zeros
/// (`0` is the single digit `0`).
pub open spec fn base62_digits(n: nat) -> Seq<char>
    decreases n,
{
    if n < 62 {
        seq![base62_digit(n)]
    } else {
        base62_digits(n / 62).push(base62_digit(n % 62))
    }
}

/// Relies on `base62::encode`: the number in base 62 with the standard digit order
/// (0 to 9, then A to Z, then a to z), most significant digit first, with no leading
/// zeros, and `"0"` for zero.
#[verifier::external_body]
fn base62_encode(n: u128) -> (r: String)
    ensures
        r@ == base62_digits(n as nat),
{
    base62::encode(n)
}

/// The short code for an identifier: its bits read as an unsigned number (a negative
/// identifier reads as its two's complement in 128 bits), written in base 62.
pub fn short_code(id: i64) -> (r: String)
    ensures
        r@ == base62_digits((id as u128) as nat),
{
    base62_encode(id as u128)
}

/// The public link for a short code.
pub fn share_link(short_code: &str) -> (r: String)
    ensures
        r@ == "https://redru.io/"@ + short_code@,
{
    let base = String::from_str("https://redru.io/");
    base.concat(short_code)
}

/// The mapping to store for a long URL that has no short code yet, under a freshly
/// generated identifier: the short code is the identifier in base 62.
pub fn new_mapping(id: i64, long_url: String) -> (r: Url)
    ensures
        r.id == id,
        r.long_url@ == long_url@,
        r.short_url@ == base62_digits((id as u128) as nat),
{
    Url { id, long_url, short_url: short_code(id) }
}

/// The answer for a long URL that was already stored: its short code as stored.
pub fn reply_for_existing(existing: &Url) -> (r: ShortenResponse)
    ensures
        r.short_url@ == existing.short_url@,
{
    ShortenResponse::new(existing.short_url.clone())
}

/// The answer for a mapping that was just stored: the public link of its short code.
pub fn reply_for_stored(stored: &Url) -> (r: ShortenResponse)
    ensures
        r.short_url@ == "https://redru.io/"@ + stored.short_url@,
{
    ShortenResponse::new(share_link(stored.short_url.as_str()))
}

} // verus!

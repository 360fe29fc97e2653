//! Random long URLs, as a load test sends them to the shortener.
use vstd::prelude::*;
use vstd::string::StringExecFns;

verus! {

/// An ASCII letter or digit.
pub open spec fn is_alphanumeric(c: char) -> bool {
    ('0' <= c && c <= '9') || ('A' <= c && c <= 'Z') || ('a' <= c && c <= 'z')
}

/// Every character is an ASCII letter or digit.
pub open spec fn all_alphanumeric(s: Seq<char>) -> bool {
    forall|i: int| 0 <= i < s.len() ==> is_alphanumeric(#[trigger] s[i])
}

/// `https://www.<domain>.com/<path>` with a domain of 5 to 14 and a path of 5 to 19
/// letters and digits.
pub open spec fn is_random_url(s: Seq<char>) -> bool {
    exists|domain: Seq<char>, path: Seq<char>|
        5 <= domain.len() < 15 && 5 <= path.len() < 20 && all_alphanumeric(domain)
            && all_alphanumeric(path) && s == "https://www."@ + domain + ".com/"@ + path
}

/// Relies on `rand::rng` and `Rng::random_range`: a value drawn from the thread's
/// generator in `lo..hi` (which panics only on an empty range).
#[verifier::external_body]
fn random_in(lo: usize, hi: usize) -> (r: usize)
    requires
        lo < hi,
    ensures
        lo <= r < hi,
{
    rand::Rng::random_range(&mut rand::rng(), lo..hi)
}

/// Relies on `SampleString::sample_string` for `rand::distr::Alphanumeric`: `len`
/// characters drawn from the thread's generator, each one of `A`-`Z`, `a`-`z`, `0`-`9`.
#[verifier::external_body]
fn random_alphanumeric(len: usize) -> (r: String)
    ensures
        r@.len() == len,
        all_alphanumeric(r@),
{
    rand::distr::SampleString::sample_string(&rand::distr::Alphanumeric, &mut rand::rng(), len)
}

/// A random long URL: `https://www.<domain>.com/<path>`, the domain 5 to 14 and the path
/// 5 to 19 random letters and digits.
pub fn generate_random_url() -> (r: String)
    ensures
        is_random_url(r@),
{
    let domain_length = random_in(5, 15);
    let path_length = random_in(5, 20);
    let domain = random_alphanumeric(domain_length);
    let path = random_alphanumeric(path_length);
    let url = url_for(domain.as_str(), path.as_str());
    assert(url@ == "https://www."@ + domain@ + ".com/"@ + path@);
    url
}

/// `https://www.<domain>.com/<path>`.
pub fn url_for(domain: &str, path: &str) -> (r: String)
    ensures
        r@ == "https://www."@ + domain@ + ".com/"@ + path@,
{
    String::from_str("https://www.").concat(domain).concat(".com/").concat(path)
}

} // verus!

//! Construction of the `Authorization` header value: `Basic` followed by
//! the base64 encoding of either `user:password` credentials or a single
//! cookie token. The encoding itself is delegated to the base64 crate; its
//! output is pinned down by the `base64_chars` specification below.

use vstd::prelude::*;
use vstd::string::*;

verus! {

/// The standard base64 alphabet, in value order.
pub open spec fn b64_alphabet() -> Seq<char> {
    "ABCDEFGHIJKLMNOPQRSTUVWXYZabcdefghijklmnopqrstuvwxyz0123456789+/"@
}

/// The base64 character for a six-bit value.
pub open spec fn b64_char(v: int) -> char {
    b64_alphabet()[v]
}

/// Standard base64 with `=` padding: four output characters for every
/// group of up to three input bytes.
pub open spec fn base64_chars(b: Seq<u8>) -> Seq<char>
    decreases b.len(),
{
    if b.len() == 0 {
        Seq::empty()
    } else if b.len() == 1 {
        let b0 = b[0] as int;
        seq![b64_char(b0 / 4), b64_char((b0 % 4) * 16), '=', '=']
    } else if b.len() == 2 {
        let b0 = b[0] as int;
        let b1 = b[1] as int;
        seq![b64_char(b0 / 4), b64_char((b0 % 4) * 16 + b1 / 16), b64_char((b1 % 16) * 4), '=']
    } else {
        let b0 = b[0] as int;
        let b1 = b[1] as int;
        let b2 = b[2] as int;
        seq![
            b64_char(b0 / 4),
            b64_char((b0 % 4) * 16 + b1 / 16),
            b64_char((b1 % 16) * 4 + b2 / 64),
            b64_char(b2 % 64),
        ] + base64_chars(b.skip(3))
    }
}

/// Relies on base64::encode: the standard alphabet with `=` padding,
/// grouping the input into threes as `base64_chars` describes.
#[verifier::external_body]
fn b64_encode(bytes: &[u8]) -> (r: String)
    ensures
        r@ == base64_chars(bytes@),
{
    base64::encode(bytes)
}

/// The UTF-8 bytes of an optional password, empty when absent.
pub open spec fn pass_bytes(pass: Option<&str>) -> Seq<u8> {
    match pass {
        Some(p) => p.spec_bytes(),
        None => Seq::empty(),
    }
}

/// The `Basic` value for user/password credentials: the credentials are
/// joined as `user:password` (the password part empty when absent) and
/// base64-encoded; they are consumed and retained only in encoded form.
pub fn basic_auth_value(user: &str, pass: Option<&str>) -> (r: String)
    ensures
        r@ == "Basic "@ + base64_chars(user.spec_bytes() + seq![58u8] + pass_bytes(pass)),
{
    let mut creds: Vec<u8> = user.as_bytes_vec();
    creds.push(58);
    if let Some(p) = pass {
        let mut pb: Vec<u8> = p.as_bytes_vec();
        creds.append(&mut pb);
    }
    proof {
        assert(creds@ =~= user.spec_bytes() + seq![58u8] + pass_bytes(pass));
    }
    let b = b64_encode(creds.as_slice());
    let mut r = String::from_str("Basic ");
    r.append(b.as_str());
    r
}

/// The `Basic` value for a single-token cookie scheme: the token alone,
/// base64-encoded.
pub fn cookie_auth_value(cookie: &str) -> (r: String)
    ensures
        r@ == "Basic "@ + base64_chars(cookie.spec_bytes()),
{
    let b = b64_encode(cookie.as_bytes());
    let mut r = String::from_str("Basic ");
    r.append(b.as_str());
    r
}

} // verus!

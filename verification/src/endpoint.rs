//! The target endpoint of the transport: host, port and path, with the
//! grammar that the builder accepts and the rendering used for diagnostics.
//!
//! An endpoint string is `http://host:port/path` where the scheme prefix and
//! the path are optional, the host is a non-empty run of letters, digits,
//! `.`, `-` or `_`, and the port is a decimal number up to 65535 written
//! without leading zeros.

use vstd::prelude::*;
use vstd::string::*;
use crate::Error;

verus! {

/// A decimal digit, by code point.
pub open spec fn is_digit_char(c: char) -> bool {
    48 <= c as int <= 57
}

/// The numeric value of one decimal digit.
pub open spec fn digit_val(c: char) -> int {
    c as int - 48
}

/// The digit with the given numeric value.
pub open spec fn char_of_digit(d: int) -> char {
    if d == 0 {
        '0'
    } else if d == 1 {
        '1'
    } else if d == 2 {
        '2'
    } else if d == 3 {
        '3'
    } else if d == 4 {
        '4'
    } else if d == 5 {
        '5'
    } else if d == 6 {
        '6'
    } else if d == 7 {
        '7'
    } else if d == 8 {
        '8'
    } else {
        '9'
    }
}

/// The canonical decimal rendering of `n`: no leading zeros, one `'0'` for zero.
pub open spec fn dec_digits(n: int) -> Seq<char>
    decreases n,
{
    if n < 10 {
        seq![char_of_digit(n)]
    } else {
        dec_digits(n / 10) + seq![char_of_digit(n % 10)]
    }
}

/// The numeric value of a run of decimal digits, most significant first.
pub open spec fn dec_val(s: Seq<char>) -> int
    decreases s.len(),
{
    if s.len() == 0 {
        0
    } else {
        dec_val(s.drop_last()) * 10 + digit_val(s.last())
    }
}

proof fn lemma_dec_val_nonneg(s: Seq<char>)
    requires
        forall|i: int| 0 <= i < s.len() ==> is_digit_char(s[i]),
    ensures
        dec_val(s) >= 0,
    decreases s.len(),
{
    if s.len() > 0 {
        lemma_dec_val_nonneg(s.drop_last());
    }
}

/// Ten raised to `k`, for digit-count bounds.
pub open spec fn pow10(k: int) -> int
    decreases k,
{
    if k <= 0 {
        1
    } else {
        10 * pow10(k - 1)
    }
}

/// A digit run without a leading zero is worth at least `pow10(len - 1)`.
proof fn lemma_dec_val_lower(s: Seq<char>)
    requires
        s.len() >= 1,
        forall|i: int| 0 <= i < s.len() ==> is_digit_char(s[i]),
        s[0] != '0',
    ensures
        dec_val(s) >= pow10(s.len() - 1),
    decreases s.len(),
{
    assert(dec_val(s) == dec_val(s.drop_last()) * 10 + digit_val(s.last()));
    if s.len() == 1 {
        assert(s.drop_last().len() == 0);
        assert(dec_val(s.drop_last()) == 0);
        assert(is_digit_char(s[0]));
        assert(s[0] as int != 48) by {
            if s[0] as int == 48 {
                assert(s[0] == '0');
            }
        }
        assert(dec_val(s) == digit_val(s[0]) >= 1);
    } else {
        let d = s.drop_last();
        assert(d[0] == s[0]);
        lemma_dec_val_lower(d);
        assert(is_digit_char(s.last()));
        assert(digit_val(s.last()) >= 0);
        assert(pow10(s.len() - 1) == 10 * pow10(s.len() - 2));
        assert(dec_val(d) * 10 >= pow10(s.len() - 2) * 10);
    }
}

/// The canonical rendering of the value of a canonical digit run is that run.
proof fn lemma_dec_digits_of_val(s: Seq<char>)
    requires
        s.len() >= 1,
        forall|i: int| 0 <= i < s.len() ==> is_digit_char(s[i]),
        s.len() == 1 || s[0] != '0',
    ensures
        dec_digits(dec_val(s)) == s,
    decreases s.len(),
{
    if s.len() == 1 {
        let c = s[0];
        assert(is_digit_char(c));
        assert(dec_val(s) == dec_val(s.drop_last()) * 10 + digit_val(s.last()));
        assert(s.drop_last().len() == 0);
        assert(dec_val(s.drop_last()) == 0);
        assert(dec_val(s) == digit_val(c));
        assert(char_of_digit(digit_val(c)) == c) by {
            assert(48 <= c as int <= 57);
        }
        assert(dec_digits(dec_val(s)) =~= s);
    } else {
        let d = s.drop_last();
        assert(d[0] == s[0]);
        lemma_dec_digits_of_val(d);
        lemma_dec_val_lower(d);
        assert(pow10(d.len() - 1) >= 1) by {
            lemma_pow10_pos(d.len() - 1);
        }
        let v = dec_val(s);
        assert(is_digit_char(s.last()));
        assert(v == dec_val(d) * 10 + digit_val(s.last()));
        assert(v >= 10);
        assert(v / 10 == dec_val(d) && v % 10 == digit_val(s.last())) by {
            lemma_dec_val_nonneg(d);
        }
        assert(char_of_digit(v % 10) == s.last()) by {
            let c = s.last();
            assert(48 <= c as int <= 57);
        }
        assert(dec_digits(v) == d + seq![s.last()]);
        assert(d + seq![s.last()] =~= s);
    }
}

proof fn lemma_pow10_pos(k: int)
    ensures
        pow10(k) >= 1,
    decreases k,
{
    if k > 0 {
        lemma_pow10_pos(k - 1);
    }
}

/// The one-character string for a decimal digit.
fn digit_str(d: u64) -> (r: &'static str)
    requires
        d < 10,
    ensures
        r@ =~= seq![char_of_digit(d as int)],
{
    proof {
        reveal_strlit("0");
        reveal_strlit("1");
        reveal_strlit("2");
        reveal_strlit("3");
        reveal_strlit("4");
        reveal_strlit("5");
        reveal_strlit("6");
        reveal_strlit("7");
        reveal_strlit("8");
        reveal_strlit("9");
    }
    match d {
        0 => "0",
        1 => "1",
        2 => "2",
        3 => "3",
        4 => "4",
        5 => "5",
        6 => "6",
        7 => "7",
        8 => "8",
        _ => "9",
    }
}

/// Renders `n` in decimal, matching `dec_digits`.
pub fn fmt_u64(n: u64) -> (r: String)
    ensures
        r@ == dec_digits(n as int),
    decreases n,
{
    if n < 10 {
        let r = String::from_str(digit_str(n));
        proof {
            assert(r@ =~= dec_digits(n as int));
        }
        r
    } else {
        let mut r = fmt_u64(n / 10);
        r.append(digit_str(n % 10));
        proof {
            assert(r@ =~= dec_digits(n as int));
        }
        r
    }
}

/// A character allowed in a host name.
pub open spec fn is_host_char(c: char) -> bool {
    ||| is_digit_char(c)
    ||| 65 <= c as int <= 90
    ||| 97 <= c as int <= 122
    ||| c == '.'
    ||| c == '-'
    ||| c == '_'
}

/// The optional scheme prefix of an endpoint string.
pub open spec fn scheme() -> Seq<char> {
    seq!['h', 't', 't', 'p', ':', '/', '/']
}

/// The endpoint string with the scheme prefix, if present, removed.
pub open spec fn strip_scheme(s: Seq<char>) -> Seq<char> {
    if s.len() >= 7 && s.subrange(0, 7) == scheme() {
        s.subrange(7, s.len() as int)
    } else {
        s
    }
}

/// The index at which the run of host characters starting at `i` ends.
pub open spec fn host_end(s: Seq<char>, i: int) -> int
    decreases s.len() - i,
{
    if i < 0 || i >= s.len() || !is_host_char(s[i]) {
        i
    } else {
        host_end(s, i + 1)
    }
}

/// The index at which the run of digits starting at `i` ends.
pub open spec fn digit_end(s: Seq<char>, i: int) -> int
    decreases s.len() - i,
{
    if i < 0 || i >= s.len() || !is_digit_char(s[i]) {
        i
    } else {
        digit_end(s, i + 1)
    }
}

/// A port written as a non-empty digit run without leading zeros, worth
/// at most 65535.
pub open spec fn valid_port_text(p: Seq<char>) -> bool {
    &&& p.len() >= 1
    &&& (forall|i: int| 0 <= i < p.len() ==> is_digit_char(p[i]))
    &&& (p.len() == 1 || p[0] != '0')
    &&& dec_val(p) <= 65535
}

/// The host part of an endpoint string.
pub open spec fn host_of(s: Seq<char>) -> Seq<char> {
    let t = strip_scheme(s);
    t.subrange(0, host_end(t, 0))
}

/// The digits of the port part of an endpoint string.
pub open spec fn port_text_of(s: Seq<char>) -> Seq<char> {
    let t = strip_scheme(s);
    let h = host_end(t, 0);
    t.subrange(h + 1, digit_end(t, h + 1))
}

/// The path part of an endpoint string: everything after the port digits.
pub open spec fn path_of(s: Seq<char>) -> Seq<char> {
    let t = strip_scheme(s);
    t.subrange(digit_end(t, host_end(t, 0) + 1), t.len() as int)
}

/// The grammar the builder accepts: an optional `http://` prefix, a
/// non-empty host, `:`, a canonical port, and an empty or `/`-rooted path.
pub open spec fn valid_url(s: Seq<char>) -> bool {
    let t = strip_scheme(s);
    let h = host_end(t, 0);
    let p = digit_end(t, h + 1);
    &&& h >= 1
    &&& h < t.len()
    &&& t[h] == ':'
    &&& valid_port_text(t.subrange(h + 1, p))
    &&& (p == t.len() || t[p] == '/')
}

/// A well-formed host: non-empty, host characters only.
pub open spec fn valid_host(h: Seq<char>) -> bool {
    h.len() >= 1 && (forall|i: int| 0 <= i < h.len() ==> is_host_char(h[i]))
}

/// A scan that stopped at the first non-host character has found `host_end`.
proof fn lemma_host_run(s: Seq<char>, k: int, i: int)
    requires
        0 <= k <= i <= s.len(),
        forall|j: int| k <= j < i ==> is_host_char(s[j]),
        i == s.len() || !is_host_char(s[i]),
    ensures
        host_end(s, k) == i,
    decreases i - k,
{
    if k < i {
        lemma_host_run(s, k + 1, i);
    }
}

/// A scan that stopped at the first non-digit character has found `digit_end`.
proof fn lemma_digit_run(s: Seq<char>, k: int, i: int)
    requires
        0 <= k <= i <= s.len(),
        forall|j: int| k <= j < i ==> is_digit_char(s[j]),
        i == s.len() || !is_digit_char(s[i]),
    ensures
        digit_end(s, k) == i,
    decreases i - k,
{
    if k < i {
        lemma_digit_run(s, k + 1, i);
    }
}

proof fn lemma_pow10_mono(a: int, b: int)
    requires
        a <= b,
    ensures
        pow10(a) <= pow10(b),
    decreases b - a,
{
    if a < b {
        lemma_pow10_mono(a, b - 1);
        lemma_pow10_pos(b - 1);
    }
}

/// Whether `c` may appear in a host name.
fn host_char(c: char) -> (b: bool)
    ensures
        b == is_host_char(c),
{
    let u = c as u32;
    (48 <= u && u <= 57) || (65 <= u && u <= 90) || (97 <= u && u <= 122) || u == 46 || u == 45
        || u == 95
}

/// An immutable, validated target endpoint.
#[derive(Clone, Debug)]
pub struct Endpoint {
    pub host: String,
    pub port: u16,
    pub path: String,
}

impl Endpoint {
    /// What every constructed endpoint satisfies.
    pub open spec fn wf(self) -> bool {
        &&& valid_host(self.host@)
        &&& (self.path@.len() == 0 || self.path@[0] == '/')
    }
}

impl Endpoint {
    /// Parses an endpoint string, accepting exactly the strings of
    /// `valid_url` and reporting every other input as `InvalidEndpoint`.
    pub fn parse(s: &str) -> (r: Result<Endpoint, Error>)
        ensures
            r is Ok <==> valid_url(s@),
            r is Ok ==> r->Ok_0.wf(),
            r is Ok ==> r->Ok_0.host@ == host_of(s@),
            r is Ok ==> r->Ok_0.port as int == dec_val(port_text_of(s@)),
            r is Ok ==> r->Ok_0.path@ == path_of(s@),
            r is Err ==> r->Err_0 == Error::InvalidEndpoint,
    {
        let n = s.unicode_len();
        let has_scheme = n >= 7 && s.get_char(0) == 'h' && s.get_char(1) == 't' && s.get_char(2)
            == 't' && s.get_char(3) == 'p' && s.get_char(4) == ':' && s.get_char(5) == '/'
            && s.get_char(6) == '/';
        let t: &str = if has_scheme {
            s.substring_char(7, n)
        } else {
            s
        };
        proof {
            if has_scheme {
                assert(s@.subrange(0, 7) =~= scheme());
                assert(t@ == strip_scheme(s@));
            } else {
                if s@.len() >= 7 && s@.subrange(0, 7) == scheme() {
                    assert(s@[0] == s@.subrange(0, 7)[0]);
                    assert(s@[1] == s@.subrange(0, 7)[1]);
                    assert(s@[2] == s@.subrange(0, 7)[2]);
                    assert(s@[3] == s@.subrange(0, 7)[3]);
                    assert(s@[4] == s@.subrange(0, 7)[4]);
                    assert(s@[5] == s@.subrange(0, 7)[5]);
                    assert(s@[6] == s@.subrange(0, 7)[6]);
                    assert(false);
                }
                assert(t@ == strip_scheme(s@));
            }
        }
        let tn = t.unicode_len();
        let ghost tv = t@;

        // The host: the longest run of host characters from the start.
        let mut i: usize = 0;
        loop
            invariant
                t@ == tv,
                tv.len() == tn,
                0 <= i <= tn,
                forall|j: int| 0 <= j < i ==> is_host_char(tv[j]),
            ensures
                0 <= i <= tn,
                forall|j: int| 0 <= j < i ==> is_host_char(tv[j]),
                i == tn || !is_host_char(tv[i as int]),
            decreases tn - i,
        {
            if i >= tn {
                break;
            }
            let c = t.get_char(i);
            if !host_char(c) {
                break;
            }
            i = i + 1;
        }
        proof {
            lemma_host_run(tv, 0, i as int);
        }

        if i == 0 {
            return Err(Error::InvalidEndpoint);
        }
        if i >= tn {
            return Err(Error::InvalidEndpoint);
        }
        let colon = t.get_char(i);
        if colon as u32 != 58 {
            proof {
                assert(tv[i as int] != ':');
            }
            return Err(Error::InvalidEndpoint);
        }
        proof {
            assert(tv[i as int] == ':');
        }

        // The port: the longest run of digits after the colon.
        let mut j: usize = i + 1;
        loop
            invariant
                t@ == tv,
                tv.len() == tn,
                i + 1 <= j <= tn,
                forall|k: int| i + 1 <= k < j ==> is_digit_char(tv[k]),
            ensures
                i + 1 <= j <= tn,
                forall|k: int| i + 1 <= k < j ==> is_digit_char(tv[k]),
                j == tn || !is_digit_char(tv[j as int]),
            decreases tn - j,
        {
            if j >= tn {
                break;
            }
            let c = t.get_char(j);
            let u = c as u32;
            if !(48 <= u && u <= 57) {
                break;
            }
            j = j + 1;
        }
        proof {
            lemma_digit_run(tv, i + 1, j as int);
        }
        let ghost pt = tv.subrange(i + 1, j as int);

        if j == i + 1 {
            return Err(Error::InvalidEndpoint);
        }
        let first_digit = t.get_char(i + 1);
        if first_digit as u32 == 48 && j > i + 2 {
            proof {
                assert(pt[0] == '0');
                assert(pt.len() >= 2);
            }
            return Err(Error::InvalidEndpoint);
        }
        if j - (i + 1) > 5 {
            proof {
                assert(pt[0] == tv[i + 1]);
                assert(pt[0] != '0');
                lemma_dec_val_lower(pt);
                lemma_pow10_mono(5, pt.len() - 1);
                assert(pow10(0) == 1);
                assert(pow10(1) == 10);
                assert(pow10(2) == 100);
                assert(pow10(3) == 1000);
                assert(pow10(4) == 10000);
                assert(pow10(5) == 100000);
                assert(dec_val(pt) > 65535);
            }
            return Err(Error::InvalidEndpoint);
        }

        // The port's value, at most five digits.
        let mut k: usize = i + 1;
        let mut val: u32 = 0;
        proof {
            assert(tv.subrange(i + 1, i + 1).len() == 0);
            assert(dec_val(tv.subrange(i + 1, i + 1)) == 0);
            assert(pow10(0) == 1);
        }
        while k < j
            invariant
                t@ == tv,
                tv.len() == tn,
                i + 1 <= k <= j <= tn,
                j - (i + 1) <= 5,
                forall|m: int| i + 1 <= m < j ==> is_digit_char(tv[m]),
                val == dec_val(tv.subrange(i + 1, k as int)),
                val < pow10(k as int - i - 1),
            decreases j - k,
        {
            let c = t.get_char(k);
            let d: u32 = (c as u32) - 48;
            proof {
                assert(is_digit_char(tv[k as int]));
                assert(d == digit_val(tv[k as int]));
                assert(pow10(0) == 1);
                assert(pow10(1) == 10);
                assert(pow10(2) == 100);
                assert(pow10(3) == 1000);
                assert(pow10(4) == 10000);
                assert(pow10(5) == 100000);
                lemma_pow10_mono(k as int - i - 1, 4);
                assert(val < 10000);
            }
            val = val * 10 + d;
            k = k + 1;
            proof {
                let sub = tv.subrange(i + 1, k as int);
                assert(sub.drop_last() =~= tv.subrange(i + 1, k - 1));
                assert(sub.last() == tv[k - 1]);
                assert(dec_val(sub) == dec_val(sub.drop_last()) * 10 + digit_val(sub.last()));
                assert(pow10(k as int - i - 1) == 10 * pow10(k as int - i - 2));
            }
        }
        proof {
            assert(tv.subrange(i + 1, k as int) == pt);
        }
        if val > 65535 {
            return Err(Error::InvalidEndpoint);
        }
        let port: u16 = val as u16;

        // The path: everything after the digits, empty or rooted at '/'.
        if j < tn {
            let slash = t.get_char(j);
            if slash as u32 != 47 {
                proof {
                    assert(tv[j as int] != '/');
                }
                return Err(Error::InvalidEndpoint);
            }
            proof {
                assert(tv[j as int] == '/');
            }
        }
        let host = String::from_str(t.substring_char(0, i));
        let path = String::from_str(t.substring_char(j, tn));
        let e = Endpoint { host, port, path };
        proof {
            assert(valid_url(s@));
            assert(e.host@ == host_of(s@));
            assert(e.path@ == path_of(s@));
            assert(e.path@.len() > 0 ==> e.path@[0] == tv[j as int]);
            assert(e.wf());
        }
        Ok(e)
    }
}

/// The diagnostic rendering of an endpoint: `http://host:port` followed by
/// the path, and nothing else.
pub open spec fn rendered_target(host: Seq<char>, port: int, path: Seq<char>) -> Seq<char> {
    scheme() + host + seq![':'] + dec_digits(port) + path
}

impl Endpoint {
    /// Renders the endpoint for diagnostics, exactly as `rendered_target`.
    pub fn describe(&self) -> (r: String)
        ensures
            r@ == rendered_target(self.host@, self.port as int, self.path@),
    {
        let mut r = String::from_str("http://");
        proof {
            reveal_strlit("http://");
            assert(r@ =~= scheme());
        }
        r.append(self.host.as_str());
        r.append(":");
        proof {
            reveal_strlit(":");
            assert(":"@ =~= seq![':']);
        }
        let p = fmt_u64(self.port as u64);
        r.append(p.as_str());
        r.append(self.path.as_str());
        proof {
            assert(r@ =~= rendered_target(self.host@, self.port as int, self.path@));
        }
        r
    }
}

proof fn lemma_digit_end_bounds(s: Seq<char>, k: int)
    requires
        0 <= k <= s.len(),
    ensures
        k <= digit_end(s, k) <= s.len(),
    decreases s.len() - k,
{
    if k < s.len() && is_digit_char(s[k]) {
        lemma_digit_end_bounds(s, k + 1);
    }
}

proof fn lemma_host_end_bounds(s: Seq<char>, k: int)
    requires
        0 <= k <= s.len(),
    ensures
        k <= host_end(s, k) <= s.len(),
    decreases s.len() - k,
{
    if k < s.len() && is_host_char(s[k]) {
        lemma_host_end_bounds(s, k + 1);
    }
}

/// Law: for every valid endpoint string the parse succeeds, and rendering
/// the parsed endpoint reproduces the input's host, port digits and path
/// exactly, behind a single `http://` prefix.
pub proof fn lemma_render_reproduces_url(s: Seq<char>)
    requires
        valid_url(s),
    ensures
        rendered_target(host_of(s), dec_val(port_text_of(s)), path_of(s)) == scheme()
            + strip_scheme(s),
{
    let t = strip_scheme(s);
    let h = host_end(t, 0);
    let p = digit_end(t, h + 1);
    let pt = t.subrange(h + 1, p);
    lemma_host_end_bounds(t, 0);
    lemma_digit_end_bounds(t, h + 1);
    lemma_dec_digits_of_val(pt);
    assert(t[h] == ':');
    assert(scheme() + t.subrange(0, h) + seq![':'] + pt + t.subrange(p, t.len() as int) =~= scheme()
        + t);
}

} // verus!

//! Splitting a destination URL into the pieces an HTTP client needs.
//!
//! The rules are pinned down exactly:
//! - if `://` occurs, the authority starts right after its first
//!   occurrence; otherwise the whole string starts with the authority;
//! - the authority runs to the first `/` or `?` after that, or to the end;
//! - a `:` inside the authority splits host from port; the port must be one
//!   to five decimal digits with a value of at most 65535; without a `:`
//!   the port is 80;
//! - the host must be non-empty; splitting fails otherwise.

use vstd::prelude::*;

use crate::bytes::copy_range;

verus! {

pub const COLON: u8 = 0x3a;  // ':'

pub const SLASH: u8 = 0x2f;  // '/'

pub const QUERY_SEP: u8 = 0x3f;  // '?'

/// The index of the first `://` at or after `i`, if any.
pub open spec fn find_scheme_sep(s: Seq<u8>, i: int) -> Option<int>
    decreases s.len() - i,
{
    if i < 0 || i + 3 > s.len() {
        None
    } else if s[i] == COLON && s[i + 1] == SLASH && s[i + 2] == SLASH {
        Some(i)
    } else {
        find_scheme_sep(s, i + 1)
    }
}

/// The index of the first `/` or `?` at or after `i`, or the length.
pub open spec fn find_delim(s: Seq<u8>, i: int) -> int
    decreases s.len() - i,
{
    if i < 0 || i >= s.len() {
        s.len() as int
    } else if s[i] == SLASH || s[i] == QUERY_SEP {
        i
    } else {
        find_delim(s, i + 1)
    }
}

/// The index of the first `:` at or after `i`, if any.
pub open spec fn find_colon(s: Seq<u8>, i: int) -> Option<int>
    decreases s.len() - i,
{
    if i < 0 || i >= s.len() {
        None
    } else if s[i] == COLON {
        Some(i)
    } else {
        find_colon(s, i + 1)
    }
}

/// What follows the scheme: the rest after the first `://`, or the whole
/// string when there is none.
pub open spec fn after_scheme(s: Seq<u8>) -> Seq<u8> {
    match find_scheme_sep(s, 0) {
        Some(j) => s.subrange(j + 3, s.len() as int),
        None => s,
    }
}

/// The authority of a URL: from the end of the scheme to the first `/` or
/// `?`.
pub open spec fn authority_of(s: Seq<u8>) -> Seq<u8> {
    let a = after_scheme(s);
    a.subrange(0, find_delim(a, 0))
}

pub open spec fn is_digit(b: u8) -> bool {
    0x30 <= b && b <= 0x39
}

pub open spec fn all_digits(s: Seq<u8>) -> bool {
    forall|i: int| 0 <= i < s.len() ==> is_digit(#[trigger] s[i])
}

/// The number a digit string denotes, most significant digit first.
pub open spec fn dec_val(s: Seq<u8>) -> int
    decreases s.len(),
{
    if s.len() == 0 {
        0
    } else {
        dec_val(s.subrange(0, s.len() - 1)) * 10 + (s[s.len() - 1] - 0x30)
    }
}

/// The port a byte string denotes: one to five decimal digits, at most
/// 65535.
pub open spec fn port_spec(s: Seq<u8>) -> Option<u16> {
    if 1 <= s.len() && s.len() <= 5 && all_digits(s) && dec_val(s) <= 65535 {
        Some(dec_val(s) as u16)
    } else {
        None
    }
}

/// The model of a forwarding target.
pub struct TargetModel {
    pub host: Seq<u8>,
    pub port: u16,
    pub authority: Seq<u8>,
    pub url: Seq<u8>,
}

/// Where a forwarded request goes: the host and port to connect to, the
/// authority for the `Host` header, and the full URL to request.
pub struct Target {
    pub host: Vec<u8>,
    pub port: u16,
    pub authority: Vec<u8>,
    pub url: Vec<u8>,
}

impl View for Target {
    type V = TargetModel;

    open spec fn view(&self) -> TargetModel {
        TargetModel {
            host: self.host@,
            port: self.port,
            authority: self.authority@,
            url: self.url@,
        }
    }
}

/// The target a URL splits into: defined exactly when the host is
/// non-empty and any explicit port is well-formed.
pub open spec fn target_spec(url: Seq<u8>) -> Option<TargetModel> {
    let auth = authority_of(url);
    match find_colon(auth, 0) {
        Some(j) => {
            let host = auth.subrange(0, j);
            match port_spec(auth.subrange(j + 1, auth.len() as int)) {
                Some(p) => if host.len() > 0 {
                    Some(TargetModel { host, port: p, authority: auth, url })
                } else {
                    None
                },
                None => None,
            }
        },
        None => if auth.len() > 0 {
            Some(TargetModel { host: auth, port: 80, authority: auth, url })
        } else {
            None
        },
    }
}

/// Powers of ten, for bounding digit strings.
pub open spec fn pow10(n: nat) -> int
    decreases n,
{
    if n == 0 {
        1
    } else {
        10 * pow10((n - 1) as nat)
    }
}

/// A digit string of length `n` denotes less than `pow10(n)`.
proof fn lemma_dec_val_bound(s: Seq<u8>)
    requires
        all_digits(s),
    ensures
        0 <= dec_val(s) < pow10(s.len()),
    decreases s.len(),
{
    if s.len() > 0 {
        assert(all_digits(s.subrange(0, s.len() - 1)));
        lemma_dec_val_bound(s.subrange(0, s.len() - 1));
    }
}

/// Parse a decimal port.
fn parse_port(s: &[u8]) -> (r: Option<u16>)
    ensures
        r == port_spec(s@),
{
    if s.len() < 1 || s.len() > 5 {
        return None;
    }
    let mut v: u32 = 0;
    let mut i: usize = 0;
    while i < s.len()
        invariant
            i <= s@.len(),
            s@.len() <= 5,
            all_digits(s@.take(i as int)),
            v == dec_val(s@.take(i as int)),
            v < 100000,
        decreases s@.len() - i,
    {
        let b = s[i];
        if b < 0x30 || b > 0x39 {
            proof {
                assert(!is_digit(s@[i as int]));
                assert(!all_digits(s@));
            }
            return None;
        }
        proof {
            let pre = s@.take(i as int);
            let nxt = s@.take(i as int + 1);
            assert(nxt.subrange(0, nxt.len() - 1) =~= pre);
            assert(all_digits(nxt));
            lemma_dec_val_bound(nxt);
            assert(pow10(0) == 1);
            assert(pow10(1) == 10);
            assert(pow10(2) == 100);
            assert(pow10(3) == 1000);
            assert(pow10(4) == 10000);
            assert(pow10(5) == 100000);
            assert(nxt.len() <= 5);
            if nxt.len() < 5nat {
                assert(pow10(nxt.len()) <= pow10(4));
            }
        }
        v = v * 10 + ((b - 0x30) as u32);
        i += 1;
    }
    proof {
        assert(s@.take(s@.len() as int) =~= s@);
    }
    if v > 65535 {
        None
    } else {
        Some(v as u16)
    }
}

/// Find the first `://`, as `find_scheme_sep` gives it.
fn scan_scheme_sep(s: &[u8]) -> (r: Option<usize>)
    ensures
        match r {
            Some(j) => find_scheme_sep(s@, 0) == Some(j as int) && j + 3 <= s@.len(),
            None => find_scheme_sep(s@, 0) is None,
        },
{
    if s.len() < 3 {
        return None;
    }
    let mut i: usize = 0;
    while i <= s.len() - 3
        invariant
            3 <= s@.len(),
            i <= s@.len(),
            find_scheme_sep(s@, 0) == find_scheme_sep(s@, i as int),
        decreases s@.len() - i,
    {
        if s[i] == COLON && s[i + 1] == SLASH && s[i + 2] == SLASH {
            return Some(i);
        }
        i += 1;
    }
    None
}

/// Find the first `/` or `?`, as `find_delim` gives it.
fn scan_delim(s: &[u8]) -> (r: usize)
    ensures
        r as int == find_delim(s@, 0),
        r <= s@.len(),
{
    let mut i: usize = 0;
    while i < s.len()
        invariant
            i <= s@.len(),
            find_delim(s@, 0) == find_delim(s@, i as int),
        decreases s@.len() - i,
    {
        if s[i] == SLASH || s[i] == QUERY_SEP {
            return i;
        }
        i += 1;
    }
    i
}

/// Find the first `:`, as `find_colon` gives it.
fn scan_colon(s: &[u8]) -> (r: Option<usize>)
    ensures
        match r {
            Some(j) => find_colon(s@, 0) == Some(j as int) && j < s@.len(),
            None => find_colon(s@, 0) is None,
        },
{
    let mut i: usize = 0;
    while i < s.len()
        invariant
            i <= s@.len(),
            find_colon(s@, 0) == find_colon(s@, i as int),
        decreases s@.len() - i,
    {
        if s[i] == COLON {
            return Some(i);
        }
        i += 1;
    }
    None
}

/// Split a destination URL into its forwarding target; see the module head
/// for the exact rules. Fails exactly when `target_spec` gives nothing: an
/// empty host or a malformed port.
pub fn split_target(url: Vec<u8>) -> (r: Option<Target>)
    ensures
        match r {
            Some(t) => target_spec(url@) == Some(t@),
            None => target_spec(url@) is None,
        },
{
    let url_len = url.len();
    let start: usize = match scan_scheme_sep(url.as_slice()) {
        Some(j) => j + 3,
        None => 0,
    };
    let rest = copy_range(url.as_slice(), start, url_len);
    proof {
        assert(rest@ =~= after_scheme(url@));
    }
    let d = scan_delim(rest.as_slice());
    let auth = copy_range(rest.as_slice(), 0, d);
    proof {
        assert(auth@ =~= authority_of(url@));
    }
    match scan_colon(auth.as_slice()) {
        Some(c) => {
            let host = copy_range(auth.as_slice(), 0, c);
            let port_text = copy_range(auth.as_slice(), c + 1, auth.len());
            proof {
                assert(port_text@ =~= auth@.subrange(c as int + 1, auth@.len() as int));
            }
            match parse_port(port_text.as_slice()) {
                Some(p) => {
                    if host.len() > 0 {
                        Some(Target { host, port: p, authority: auth, url })
                    } else {
                        None
                    }
                },
                None => None,
            }
        },
        None => {
            if auth.len() > 0 {
                let host = copy_range(auth.as_slice(), 0, auth.len());
                proof {
                    assert(host@ =~= auth@);
                }
                Some(Target { host, port: 80, authority: auth, url })
            } else {
                None
            }
        },
    }
}

} // verus!

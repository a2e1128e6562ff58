//! Parsing and validation of CIDR strings of the form `A.B.C.D/P`, and the
//! calculator that ties parsing to the subnet arithmetic.
//!
//! The input is modelled as its UTF-8 byte sequence. The string must split on
//! exactly one `/` into two non-empty parts; the left part must be four
//! dot-separated decimal octets in [0, 255] (no leading zeros); the right
//! part must be a decimal integer in [0, 32]. The first failing check decides
//! the error.

use vstd::prelude::*;
use vstd::string::StrSliceExecFns;
use vstd::string::StringSliceAdditionalSpecFns;

use crate::subnet::CidrError;
use crate::subnet::CidrInput;
use crate::subnet::SubnetReport;
use crate::subnet::report_spec;

verus! {

/// The byte `'/'`.
pub const SLASH: u8 = 47;

/// The byte `'.'`.
pub const DOT: u8 = 46;

/// The byte `'0'`.
pub const DIGIT_ZERO: u8 = 48;

/// The byte `'9'`.
pub const DIGIT_NINE: u8 = 57;

/// Is `b` the byte of a decimal digit?
pub open spec fn is_digit_byte(b: u8) -> bool {
    DIGIT_ZERO <= b <= DIGIT_NINE
}

/// Is `s` non-empty and made of decimal digits only?
pub open spec fn all_digits(s: Seq<u8>) -> bool {
    forall|i: int| 0 <= i < s.len() ==> is_digit_byte(#[trigger] s[i])
}

/// The value of the digit string `s`, read as a decimal integer.
pub open spec fn dec_value(s: Seq<u8>) -> int
    recommends
        all_digits(s),
    decreases s.len(),
{
    if s.len() == 0 {
        0
    } else {
        dec_value(s.drop_last()) * 10 + (s.last() - DIGIT_ZERO)
    }
}

/// The index of the first occurrence of `b` in `s` at or after `start`, or
/// -1 if there is none.
pub open spec fn find_from(s: Seq<u8>, b: u8, start: int) -> int
    decreases s.len() - start,
{
    if start < 0 || start >= s.len() {
        -1
    } else if s[start] == b {
        start
    } else {
        find_from(s, b, start + 1)
    }
}

/// `find_from` returns the position of an occurrence that nothing precedes.
pub proof fn lemma_find_from_is(s: Seq<u8>, b: u8, start: int, p: int)
    requires
        0 <= start <= p < s.len(),
        s[p] == b,
        forall|m: int| start <= m < p ==> #[trigger] s[m] != b,
    ensures
        find_from(s, b, start) == p,
    decreases p - start,
{
    if s[start] != b {
        lemma_find_from_is(s, b, start + 1, p);
    }
}

/// `find_from` returns -1 where no occurrence exists.
pub proof fn lemma_find_from_none(s: Seq<u8>, b: u8, start: int)
    requires
        0 <= start <= s.len(),
        forall|m: int| start <= m < s.len() ==> #[trigger] s[m] != b,
    ensures
        find_from(s, b, start) == -1,
    decreases s.len() - start,
{
    if start < s.len() {
        lemma_find_from_none(s, b, start + 1);
    }
}

/// A digit string's value is non-negative.
pub proof fn lemma_dec_value_nonneg(s: Seq<u8>)
    requires
        all_digits(s),
    ensures
        dec_value(s) >= 0,
    decreases s.len(),
{
    if s.len() > 0 {
        assert(forall|i: int| 0 <= i < s.drop_last().len() ==> #[trigger] s.drop_last()[i]
            == s[i]);
        lemma_dec_value_nonneg(s.drop_last());
    }
}

/// Is `s` a valid octet: non-empty, digits only, no leading zero, and at
/// most 255?
pub open spec fn valid_octet(s: Seq<u8>) -> bool {
    &&& s.len() > 0
    &&& all_digits(s)
    &&& (s.len() == 1 || s[0] != DIGIT_ZERO)
    &&& dec_value(s) <= 255
}

/// The address denoted by the dotted-quad string `s`, or `None` where `s` is
/// not four dot-separated valid octets. The three separating dots are the
/// first three occurrences of `.`; any further dot lands inside the last
/// octet and invalidates it.
pub open spec fn ipv4_value(s: Seq<u8>) -> Option<u32> {
    let i = find_from(s, DOT, 0);
    let j = find_from(s, DOT, i + 1);
    let k = find_from(s, DOT, j + 1);
    if i >= 0 && j >= 0 && k >= 0 {
        let o1 = s.subrange(0, i);
        let o2 = s.subrange(i + 1, j);
        let o3 = s.subrange(j + 1, k);
        let o4 = s.subrange(k + 1, s.len() as int);
        if valid_octet(o1) && valid_octet(o2) && valid_octet(o3) && valid_octet(o4) {
            Some(
                ((dec_value(o1) * 0x100_0000 + dec_value(o2) * 0x1_0000 + dec_value(o3) * 0x100
                    + dec_value(o4)) as u32),
            )
        } else {
            None
        }
    } else {
        None
    }
}

/// Find the first occurrence of `b` in `v` within `[start, end)`.
fn find_byte(v: &Vec<u8>, b: u8, start: usize, end: usize) -> (r: Option<usize>)
    requires
        start <= end <= v@.len(),
    ensures
        match r {
            Some(p) => start <= p < end && v@[p as int] == b && (forall|m: int|
                start <= m < p ==> #[trigger] v@[m] != b),
            None => forall|m: int| start <= m < end ==> #[trigger] v@[m] != b,
        },
{
    let mut i: usize = start;
    while i < end
        invariant
            start <= i <= end <= v@.len(),
            forall|m: int| start <= m < i ==> #[trigger] v@[m] != b,
        decreases end - i,
    {
        if v[i] == b {
            return Some(i);
        }
        i = i + 1;
    }
    None
}

/// Read `v[start..end)` as a decimal integer, exact up to `cap`: the result
/// is the exact value where that value is at most `cap`, and some value
/// above `cap` otherwise. `None` exactly where the range is empty or holds a
/// non-digit.
fn parse_decimal(v: &Vec<u8>, start: usize, end: usize, cap: u32) -> (r: Option<u32>)
    requires
        start <= end <= v@.len(),
        cap <= 1000,
    ensures
        ({
            let s = v@.subrange(start as int, end as int);
            match r {
                None => !(s.len() > 0 && all_digits(s)),
                Some(val) => {
                    &&& s.len() > 0
                    &&& all_digits(s)
                    &&& (dec_value(s) <= cap ==> val == dec_value(s))
                    &&& (dec_value(s) > cap ==> val > cap)
                },
            }
        }),
{
    if start == end {
        return None;
    }
    let mut acc: u32 = 0;
    let mut i: usize = start;
    while i < end
        invariant
            start <= i <= end <= v@.len(),
            cap <= 1000,
            acc <= 10 * cap + 9,
            all_digits(v@.subrange(start as int, i as int)),
            dec_value(v@.subrange(start as int, i as int)) <= cap ==> acc == dec_value(
                v@.subrange(start as int, i as int),
            ),
            dec_value(v@.subrange(start as int, i as int)) > cap ==> acc > cap,
        decreases end - i,
    {
        let b = v[i];
        if b < DIGIT_ZERO || b > DIGIT_NINE {
            proof {
                let s = v@.subrange(start as int, end as int);
                assert(s[i - start] == v@[i as int]);
                assert(!all_digits(s));
            }
            return None;
        }
        let d: u32 = (b - DIGIT_ZERO) as u32;
        proof {
            let pre = v@.subrange(start as int, i as int);
            let post = v@.subrange(start as int, i as int + 1);
            assert(post.drop_last() =~= pre);
            assert(post.last() == v@[i as int]);
            assert(dec_value(post) == dec_value(pre) * 10 + (v@[i as int] - DIGIT_ZERO));
            lemma_dec_value_nonneg(pre);
            assert(forall|m: int| 0 <= m < post.len() ==> #[trigger] post[m] == v@[start + m]);
            assert(all_digits(post));
        }
        acc = if acc > cap {
            cap + 1
        } else {
            acc * 10 + d
        };
        i = i + 1;
    }
    Some(acc)
}

/// Parse `v[0..end)` as a dotted-quad IPv4 address.
fn parse_ipv4(v: &Vec<u8>, end: usize) -> (r: Option<u32>)
    requires
        end <= v@.len(),
    ensures
        r == ipv4_value(v@.subrange(0, end as int)),
{
    let ghost ip = v@.subrange(0, end as int);
    proof {
        assert(forall|m: int| 0 <= m < ip.len() ==> #[trigger] ip[m] == v@[m]);
    }
    let d1 = match find_byte(v, DOT, 0, end) {
        Some(p) => p,
        None => {
            proof {
                lemma_find_from_none(ip, DOT, 0);
            }
            return None;
        },
    };
    proof {
        lemma_find_from_is(ip, DOT, 0, d1 as int);
    }
    let d2 = match find_byte(v, DOT, d1 + 1, end) {
        Some(p) => p,
        None => {
            proof {
                lemma_find_from_none(ip, DOT, d1 + 1);
            }
            return None;
        },
    };
    proof {
        lemma_find_from_is(ip, DOT, d1 + 1, d2 as int);
    }
    let d3 = match find_byte(v, DOT, d2 + 1, end) {
        Some(p) => p,
        None => {
            proof {
                lemma_find_from_none(ip, DOT, d2 + 1);
            }
            return None;
        },
    };
    proof {
        lemma_find_from_is(ip, DOT, d2 + 1, d3 as int);
    }
    let ghost o1 = ip.subrange(0, d1 as int);
    let ghost o2 = ip.subrange(d1 as int + 1, d2 as int);
    let ghost o3 = ip.subrange(d2 as int + 1, d3 as int);
    let ghost o4 = ip.subrange(d3 as int + 1, ip.len() as int);
    proof {
        assert(o1 =~= v@.subrange(0, d1 as int));
        assert(o2 =~= v@.subrange(d1 as int + 1, d2 as int));
        assert(o3 =~= v@.subrange(d2 as int + 1, d3 as int));
        assert(o4 =~= v@.subrange(d3 as int + 1, end as int));
    }
    let o1v = match parse_octet(v, 0, d1) {
        Some(x) => x,
        None => {
            proof {
                assert(!valid_octet(o1));
            }
            return None;
        },
    };
    let o2v = match parse_octet(v, d1 + 1, d2) {
        Some(x) => x,
        None => {
            proof {
                assert(!valid_octet(o2));
            }
            return None;
        },
    };
    let o3v = match parse_octet(v, d2 + 1, d3) {
        Some(x) => x,
        None => {
            proof {
                assert(!valid_octet(o3));
            }
            return None;
        },
    };
    let o4v = match parse_octet(v, d3 + 1, end) {
        Some(x) => x,
        None => {
            proof {
                assert(!valid_octet(o4));
            }
            return None;
        },
    };
    let a: u32 = o1v * 0x100_0000 + o2v * 0x1_0000 + o3v * 0x100 + o4v;
    proof {
        assert(valid_octet(o1) && valid_octet(o2) && valid_octet(o3) && valid_octet(o4));
        lemma_dec_value_nonneg(o1);
        lemma_dec_value_nonneg(o2);
        lemma_dec_value_nonneg(o3);
        lemma_dec_value_nonneg(o4);
        assert(ipv4_value(ip) == Some(a));
    }
    Some(a)
}

/// Parse `v[start..end)` as one octet: digits only, no leading zero, at
/// most 255. The result is `Some` exactly where the range is a valid octet,
/// and then carries its value.
fn parse_octet(v: &Vec<u8>, start: usize, end: usize) -> (r: Option<u32>)
    requires
        start <= end <= v@.len(),
    ensures
        ({
            let s = v@.subrange(start as int, end as int);
            match r {
                None => !valid_octet(s),
                Some(val) => valid_octet(s) && val == dec_value(s) && val <= 255,
            }
        }),
{
    let val = match parse_decimal(v, start, end, 255) {
        Some(x) => x,
        None => {
            return None;
        },
    };
    if val > 255 {
        return None;
    }
    if end - start > 1 && v[start] == DIGIT_ZERO {
        proof {
            let s = v@.subrange(start as int, end as int);
            assert(s[0] == v@[start as int]);
        }
        return None;
    }
    proof {
        let s = v@.subrange(start as int, end as int);
        assert(s[0] == v@[start as int]);
    }
    Some(val)
}

/// What the calculator returns for the input string with bytes `s`: the
/// validation steps in order — shape, address, prefix syntax, prefix range —
/// each failure short-circuiting with its error, and on success the report
/// derived from the parsed address and prefix.
pub open spec fn subnet_calc_spec(s: Seq<u8>) -> Result<SubnetReport, CidrError> {
    let sl = find_from(s, SLASH, 0);
    if sl < 0 || sl == 0 || sl == s.len() - 1 || find_from(s, SLASH, sl + 1) >= 0 {
        Err(CidrError::MalformedCidr)
    } else {
        let pfx_part = s.subrange(sl + 1, s.len() as int);
        match ipv4_value(s.subrange(0, sl)) {
            Some(addr) => {
                if !all_digits(pfx_part) {
                    Err(CidrError::InvalidPrefixSyntax)
                } else if dec_value(pfx_part) > 32 {
                    Err(CidrError::PrefixOutOfRange)
                } else {
                    Ok(report_spec(addr, dec_value(pfx_part) as u32))
                }
            },
            None => Err(CidrError::InvalidAddress),
        }
    }
}

/// The calculator over the raw bytes of the input string.
pub fn subnet_calculator_bytes(v: &Vec<u8>) -> (r: Result<SubnetReport, CidrError>)
    ensures
        r == subnet_calc_spec(v@),
{
    let n = v.len();
    let sl = match find_byte(v, SLASH, 0, n) {
        Some(p) => p,
        None => {
            proof {
                lemma_find_from_none(v@, SLASH, 0);
            }
            return Err(CidrError::MalformedCidr);
        },
    };
    proof {
        lemma_find_from_is(v@, SLASH, 0, sl as int);
    }
    if sl == 0 || sl == n - 1 {
        return Err(CidrError::MalformedCidr);
    }
    match find_byte(v, SLASH, sl + 1, n) {
        Some(q) => {
            proof {
                lemma_find_from_is(v@, SLASH, sl as int + 1, q as int);
            }
            return Err(CidrError::MalformedCidr);
        },
        None => {
            proof {
                lemma_find_from_none(v@, SLASH, sl as int + 1);
            }
        },
    }
    let addr = match parse_ipv4(v, sl) {
        Some(a) => a,
        None => {
            return Err(CidrError::InvalidAddress);
        },
    };
    let val = match parse_decimal(v, sl + 1, n, 32) {
        Some(x) => x,
        None => {
            return Err(CidrError::InvalidPrefixSyntax);
        },
    };
    if val > 32 {
        return Err(CidrError::PrefixOutOfRange);
    }
    let input = match CidrInput::new(addr, val) {
        Some(c) => c,
        None => {
            proof {
                assert(false);
            }
            return Err(CidrError::PrefixOutOfRange);
        },
    };
    Ok(SubnetReport::compute(input))
}

/// The CIDR calculator: parse and validate `A.B.C.D/P`, then derive the
/// subnet report. Pure: the result is a function of the input string alone,
/// and no input makes it panic.
pub fn subnet_calculator(s: &str) -> (r: Result<SubnetReport, CidrError>)
    ensures
        r == subnet_calc_spec(s.spec_bytes()),
{
    let v = s.as_bytes_vec();
    subnet_calculator_bytes(&v)
}

/// Law: the calculator is deterministic — two runs on the same input string
/// yield the same result, so recomputing a report never changes it.
pub proof fn lemma_calculator_deterministic(s1: Seq<u8>, s2: Seq<u8>)
    requires
        s1 == s2,
    ensures
        subnet_calc_spec(s1) == subnet_calc_spec(s2),
{
}

} // verus!

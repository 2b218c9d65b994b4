//! Size normalization: converts free-text size strings such as `1.1 GB`,
//! `from 15.9 GB [Selective Download]` or `916 MB/1.1 GB` into a canonical
//! whole number of megabytes, rounding down. A dual size separated by a
//! slash yields the minimum of the two readable values. Unreadable input
//! yields no value, never an error.

use vstd::prelude::*;
use crate::text::is_digit;
use crate::text::is_digit_e;
use crate::text::is_ws;
use crate::text::is_ws_e;
use crate::text::matches_at;
use crate::text::skip_ws;
use crate::text::skip_ws_e;
use crate::text::spec_find_char;
use crate::text::sub_vec;
use crate::text::trim_leading;
use crate::text::trim_leading_e;
use crate::text::trim_trailing;
use crate::text::trim_trailing_e;

verus! {

/// End of the whitespace-delimited token that starts at `i`.
pub open spec fn tok_end(s: Seq<char>, i: int) -> int
    decreases s.len() - i,
{
    if 0 <= i && i < s.len() && !is_ws(s[i]) {
        tok_end(s, i + 1)
    } else {
        i
    }
}

pub proof fn lemma_tok_end(s: Seq<char>, i: int)
    requires
        0 <= i <= s.len(),
    ensures
        i <= tok_end(s, i) <= s.len(),
    decreases s.len() - i,
{
    if i < s.len() && !is_ws(s[i]) {
        lemma_tok_end(s, i + 1);
    }
}

pub fn tok_end_e(s: &Vec<char>, i: usize) -> (r: usize)
    requires
        i <= s@.len(),
    ensures
        r as int == tok_end(s@, i as int),
        i <= r <= s@.len(),
{
    let mut j = i;
    while j < s.len() && !is_ws_e(s[j])
        invariant
            i <= j <= s@.len(),
            tok_end(s@, i as int) == tok_end(s@, j as int),
        decreases s@.len() - j,
    {
        j += 1;
    }
    j
}

/// Both ends trimmed of whitespace.
pub open spec fn trim(s: Seq<char>) -> Seq<char> {
    trim_trailing(trim_leading(s))
}

/// `s` holds exactly one whitespace-delimited token.
pub open spec fn one_token(s: Seq<char>) -> bool {
    let a = skip_ws(s, 0);
    a < s.len() && skip_ws(s, tok_end(s, a)) >= s.len()
}

/// `s` holds at least two whitespace-delimited tokens.
pub open spec fn two_tokens(s: Seq<char>) -> bool {
    let a = skip_ws(s, 0);
    a < s.len() && skip_ws(s, tok_end(s, a)) < s.len()
}

/// The unit multiplier named at position `c`: megabytes, gigabytes or
/// terabytes.
pub open spec fn unit_mult_at(s: Seq<char>, c: int) -> Option<int> {
    if matches_at(s, "MB"@, c) {
        Some(1)
    } else if matches_at(s, "GB"@, c) {
        Some(1024)
    } else if matches_at(s, "TB"@, c) {
        Some(1048576)
    } else {
        None
    }
}

/// Numeric value of a run of decimal digits.
pub open spec fn digits_val(ds: Seq<char>) -> nat
    decreases ds.len(),
{
    if ds.len() == 0 {
        0
    } else {
        digits_val(ds.drop_last()) * 10 + (ds.last() as int - '0' as int) as nat
    }
}

pub open spec fn all_digits(ds: Seq<char>) -> bool {
    forall|k: int| 0 <= k < ds.len() ==> is_digit(#[trigger] ds[k])
}

pub open spec fn pow10(k: nat) -> nat
    decreases k,
{
    if k == 0 {
        1
    } else {
        10 * pow10((k - 1) as nat)
    }
}

pub proof fn lemma_digits_val_bound(ds: Seq<char>)
    requires
        all_digits(ds),
    ensures
        digits_val(ds) < pow10(ds.len()),
    decreases ds.len(),
{
    if ds.len() > 0 {
        assert(all_digits(ds.drop_last())) by {
            assert(forall|k: int| 0 <= k < ds.len() - 1 ==> ds.drop_last()[k] == ds[k]);
        }
        lemma_digits_val_bound(ds.drop_last());
        assert(is_digit(ds[ds.len() - 1]));
    }
}

pub proof fn lemma_pow10_bounds()
    ensures
        pow10(12) == 1000000000000,
        pow10(19) == 10000000000000000000,
        forall|a: nat, b: nat| a <= b ==> #[trigger] pow10(a) <= #[trigger] pow10(b),
{
    reveal_with_fuel(pow10, 20);
    assert(pow10(12) == 1000000000000);
    assert(pow10(19) == 10000000000000000000);
    assert forall|a: nat, b: nat| a <= b implies #[trigger] pow10(a) <= #[trigger] pow10(
        b,
    ) by {
        lemma_pow10_mono(a, b);
    }
}

proof fn lemma_pow10_pos(k: nat)
    ensures
        pow10(k) >= 1,
    decreases k,
{
    if k > 0 {
        lemma_pow10_pos((k - 1) as nat);
    }
}

proof fn lemma_pow10_mono(a: nat, b: nat)
    requires
        a <= b,
    ensures
        pow10(a) <= pow10(b),
    decreases b - a,
{
    lemma_pow10_pos(a);
    if a < b {
        lemma_pow10_mono(a, (b - 1) as nat);
        lemma_pow10_pos((b - 1) as nat);
    }
}

/// The integer part, fraction digits and fraction length of a decimal
/// number token. At most nineteen integer digits and twelve fraction digits
/// are readable; anything larger is beyond every real download size.
pub open spec fn num_val(t: Seq<char>) -> Option<(nat, nat, nat)> {
    let ip = match spec_find_char(t, '.', 0) {
        Some(p) => t.subrange(0, p),
        None => t,
    };
    let fr = match spec_find_char(t, '.', 0) {
        Some(p) => t.subrange(p + 1, t.len() as int),
        None => Seq::<char>::empty(),
    };
    if 1 <= ip.len() <= 19 && all_digits(ip) && all_digits(fr) && fr.len() <= 12 {
        Some((digits_val(ip), digits_val(fr), fr.len()))
    } else {
        None
    }
}

/// Megabytes of `(ip . fr) * mult`, rounded down.
pub open spec fn mb_of(ip: nat, fr: nat, k: nat, mult: int) -> int {
    ((ip * pow10(k) + fr) * mult) / pow10(k) as int
}

/// Megabytes encoded by number token `t` under unit multiplier `mult`, if
/// the token is a readable decimal and the result fits a signed 64-bit
/// count.
pub open spec fn spec_token_mb(t: Seq<char>, mult: int) -> Option<int> {
    match num_val(t) {
        Some((ip, fr, k)) => {
            let mb = mb_of(ip, fr, k, mult);
            if mb <= 0x7fff_ffff_ffff_ffff {
                Some(mb)
            } else {
                None
            }
        },
        None => None,
    }
}

/// Megabytes of a single `number unit` string such as `1.4 GB`: the first
/// token is the number, the second names the unit.
pub open spec fn spec_single_mb(s: Seq<char>) -> Option<int> {
    let a = skip_ws(s, 0);
    if a >= s.len() {
        None
    } else {
        let b = tok_end(s, a);
        let c = skip_ws(s, b);
        if c >= s.len() {
            None
        } else {
            match unit_mult_at(s, c) {
                Some(m) => spec_token_mb(s.subrange(a, b), m),
                None => None,
            }
        }
    }
}

/// The size text with its `from `/`~` prefixes and any trailing bracketed
/// annotation removed.
pub open spec fn spec_core(s: Seq<char>) -> Seq<char> {
    let t0 = trim(s);
    let t1 = if matches_at(t0, "from "@, 0) {
        t0.skip(5)
    } else {
        t0
    };
    let t2 = if t1.len() > 0 && t1[0] == '~' {
        t1.drop_first()
    } else {
        t1
    };
    let t3 = match spec_find_char(t2, '[', 0) {
        Some(p) => t2.subrange(0, p),
        None => t2,
    };
    trim(t3)
}

/// Start of the second token of `s`.
pub open spec fn second_tok_at(s: Seq<char>) -> int {
    skip_ws(s, tok_end(s, skip_ws(s, 0)))
}

/// What `parse_size_to_mb` returns for size text `s`: strip the prefixes
/// and the bracketed tail; a slash splits two candidate sizes, where a unit
/// carried only by the second is imputed onto the first and the minimum of
/// the readable candidates wins; otherwise read the single size.
pub open spec fn spec_parse_size(s: Seq<char>) -> Option<int> {
    let core = spec_core(s);
    match spec_find_char(core, '/', 0) {
        None => spec_single_mb(core),
        Some(p) => {
            let p1 = trim(core.subrange(0, p));
            let p2 = trim(
                match spec_find_char(core, '/', p + 1) {
                    Some(q) => core.subrange(p + 1, q),
                    None => core.subrange(p + 1, core.len() as int),
                },
            );
            let first = if one_token(p1) && two_tokens(p2) {
                match unit_mult_at(p2, second_tok_at(p2)) {
                    Some(m) => spec_token_mb(p1, m),
                    None => None,
                }
            } else {
                spec_single_mb(p1)
            };
            let second = spec_single_mb(p2);
            match (first, second) {
                (Some(x), Some(y)) => Some(
                    if x <= y {
                        x
                    } else {
                        y
                    },
                ),
                (Some(x), None) => Some(x),
                (None, Some(y)) => Some(y),
                (None, None) => None,
            }
        },
    }
}

/// An `Option<i64>` result agrees with an `Option<int>` specification.
pub open spec fn opt_mb_agrees(r: Option<i64>, sp: Option<int>) -> bool {
    match r {
        Some(x) => sp == Some(x as int),
        None => sp is None,
    }
}

/// Digits of `[a, b)` as a number; `None` when the run is too long.
pub(crate) fn digits_value_e(s: &Vec<char>, a: usize, b: usize, max_len: usize) -> (r: Option<u64>)
    requires
        a <= b <= s@.len(),
        all_digits(s@.subrange(a as int, b as int)),
        max_len <= 19,
    ensures
        b - a <= max_len ==> r == Some(digits_val(s@.subrange(a as int, b as int)) as u64),
        b - a > max_len ==> r is None,
        r matches Some(v) ==> v == digits_val(s@.subrange(a as int, b as int)),
{
    if b - a > max_len {
        return None;
    }
    proof {
        lemma_pow10_bounds();
    }
    let mut v: u64 = 0;
    let mut k: usize = a;
    while k < b
        invariant
            a <= k <= b <= s@.len(),
            b - a <= max_len <= 19,
            all_digits(s@.subrange(a as int, b as int)),
            v == digits_val(s@.subrange(a as int, k as int)),
            pow10(19) == 10000000000000000000,
            forall|x: nat, y: nat| x <= y ==> #[trigger] pow10(x) <= #[trigger] pow10(y),
        decreases b - k,
    {
        proof {
            lemma_digits_val_bound(s@.subrange(a as int, k as int));
            assert(pow10((k - a) as nat) <= pow10(18)) by {
                assert((k - a) as nat <= 18);
            }
            assert(pow10(18) * 10 == pow10(19));
            assert(s@.subrange(a as int, k + 1).drop_last() =~= s@.subrange(a as int, k as int));
            assert(is_digit(s@.subrange(a as int, b as int)[k - a]));
            assert(s@[k as int] == s@.subrange(a as int, b as int)[k - a]);
        }
        assert(v < pow10(18)) by {
            assert(digits_val(s@.subrange(a as int, k as int)) < pow10((k - a) as nat));
        }
        let d = (s[k] as u32 - '0' as u32) as u64;
        v = v * 10 + d;
        k += 1;
    }
    proof {
        assert(s@.subrange(a as int, b as int) == s@.subrange(a as int, k as int));
    }
    Some(v)
}

fn pow10_e(k: usize) -> (r: u128)
    requires
        k <= 12,
    ensures
        r == pow10(k as nat),
        r >= 1,
{
    proof {
        lemma_pow10_bounds();
    }
    let mut r: u128 = 1;
    let mut i: usize = 0;
    while i < k
        invariant
            i <= k <= 12,
            r >= 1,
            r == pow10(i as nat),
            pow10(12) == 1000000000000,
            forall|x: nat, y: nat| x <= y ==> #[trigger] pow10(x) <= #[trigger] pow10(y),
        decreases k - i,
    {
        proof {
            assert(pow10(i as nat) <= pow10(12));
        }
        r = r * 10;
        i += 1;
    }
    r
}

/// Megabytes of the number in `[a, b)` of `s` under `mult`, matching
/// `spec_token_mb`.
#[verifier::loop_isolation(false)]
fn token_mb_e(s: &Vec<char>, a: usize, b: usize, mult: u32) -> (r: Option<i64>)
    requires
        a <= b <= s@.len(),
        mult == 1 || mult == 1024 || mult == 1024 * 1024,
    ensures
        opt_mb_agrees(r, spec_token_mb(s@.subrange(a as int, b as int), mult as int)),
{
    let ghost t = s@.subrange(a as int, b as int);
    // locate the decimal point inside the token
    let mut dot: Option<usize> = None;
    let mut k: usize = a;
    while k < b
        invariant
            a <= k <= b <= s@.len(),
            match dot {
                Some(p) => a <= p < k && spec_find_char(t, '.', 0) == Some(p - a),
                None => spec_find_char(t, '.', 0) == spec_find_char(t, '.', k - a),
            },
        decreases b - k,
    {
        if dot.is_none() {
            proof {
                assert(t[k - a] == s@[k as int]);
            }
            if s[k] == '.' {
                dot = Some(k);
            }
        }
        k += 1;
    }
    let (ip_a, ip_b, fr_a, fr_b) = match dot {
        Some(p) => (a, p, p + 1, b),
        None => (a, b, b, b),
    };
    proof {
        if dot is None {
            assert(spec_find_char(t, '.', b - a) is None);
            assert(t.subrange(0, t.len() as int) =~= t);
        }
        assert(s@.subrange(ip_a as int, ip_b as int) =~= (match spec_find_char(t, '.', 0) {
            Some(p) => t.subrange(0, p),
            None => t,
        }));
        assert(s@.subrange(fr_a as int, fr_b as int) =~= (match spec_find_char(t, '.', 0) {
            Some(p) => t.subrange(p + 1, t.len() as int),
            None => Seq::<char>::empty(),
        }));
    }
    let ghost ip = s@.subrange(ip_a as int, ip_b as int);
    let ghost fr = s@.subrange(fr_a as int, fr_b as int);
    // the two digit runs must be digits throughout
    if ip_b == ip_a || !range_all_digits(s, ip_a, ip_b) || !range_all_digits(s, fr_a, fr_b) {
        proof {
            assert(num_val(t) is None);
        }
        return None;
    }
    if ip_b - ip_a > 19 || fr_b - fr_a > 12 {
        proof {
            assert(num_val(t) is None);
        }
        return None;
    }
    let ipv = digits_value_e(s, ip_a, ip_b, 19).unwrap();
    let frv = digits_value_e(s, fr_a, fr_b, 12).unwrap();
    proof {
        assert(num_val(t) == Some((ipv as nat, frv as nat, fr.len())));
        lemma_pow10_bounds();
        lemma_digits_val_bound(ip);
        lemma_digits_val_bound(fr);
    }
    let p = pow10_e(fr_b - fr_a);
    proof {
        assert(ipv < pow10(19));
        assert(frv < pow10(12));
        assert(p <= pow10(12));
        assert((ipv as int) * (p as int) <= pow10(19) * pow10(12)) by (nonlinear_arith)
            requires
                0 <= ipv < pow10(19),
                0 < p <= pow10(12),
        ;
        assert(pow10(19) * pow10(12) < 0x10000000000000000000000000000000) by {
            assert(pow10(19) == 10000000000000000000);
            assert(pow10(12) == 1000000000000);
        }
    }
    let scaled: u128 = (ipv as u128) * p + (frv as u128);
    proof {
        assert((scaled as int) * (mult as int) <= (pow10(19) * pow10(12) + pow10(12))
            * 1048576) by (nonlinear_arith)
            requires
                0 <= scaled as int <= pow10(19) * pow10(12) + pow10(12),
                0 < mult <= 1048576,
        ;
        assert((pow10(19) * pow10(12) + pow10(12)) * 1048576
            < 0xffffffffffffffffffffffffffffffff) by {
            assert(pow10(19) == 10000000000000000000);
            assert(pow10(12) == 1000000000000);
        }
    }
    let total: u128 = scaled * (mult as u128);
    let mb: u128 = total / p;
    proof {
        assert(mb as int == mb_of(ipv as nat, frv as nat, fr.len(), mult as int));
    }
    if mb <= 0x7fff_ffff_ffff_ffff {
        Some(mb as i64)
    } else {
        None
    }
}

/// Every character of `[a, b)` is a decimal digit.
pub(crate) fn range_all_digits(s: &Vec<char>, a: usize, b: usize) -> (r: bool)
    requires
        a <= b <= s@.len(),
    ensures
        r == all_digits(s@.subrange(a as int, b as int)),
{
    let mut k: usize = a;
    while k < b
        invariant
            a <= k <= b <= s@.len(),
            forall|m: int| 0 <= m < k - a ==> is_digit(#[trigger] s@.subrange(a as int, b as int)[m]),
        decreases b - k,
    {
        if !is_digit_e(s[k]) {
            proof {
                assert(s@.subrange(a as int, b as int)[k - a] == s@[k as int]);
            }
            return false;
        }
        proof {
            assert(s@.subrange(a as int, b as int)[k - a] == s@[k as int]);
        }
        k += 1;
    }
    true
}

/// Megabytes of a single `number unit` string, matching `spec_single_mb`.
pub fn parse_single_size(size_str: &str) -> (r: Option<i64>)
    ensures
        opt_mb_agrees(r, spec_single_mb(size_str@)),
{
    let v = crate::text::chars_of(size_str);
    single_mb_vec(&v)
}

fn single_mb_vec(v: &Vec<char>) -> (r: Option<i64>)
    ensures
        opt_mb_agrees(r, spec_single_mb(v@)),
{
    let a = skip_ws_e(v, 0);
    if a >= v.len() {
        return None;
    }
    let b = tok_end_e(v, a);
    let c = skip_ws_e(v, b);
    if c >= v.len() {
        return None;
    }
    let m: u32 = if crate::text::eq_at(v, "MB", c) {
        1
    } else if crate::text::eq_at(v, "GB", c) {
        1024
    } else if crate::text::eq_at(v, "TB", c) {
        1024 * 1024
    } else {
        return None;
    };
    token_mb_e(v, a, b, m)
}

/// `v` holds exactly one token (`r.0`) or at least two (`r.1`).
fn token_shape(v: &Vec<char>) -> (r: (bool, bool))
    ensures
        r.0 == one_token(v@),
        r.1 == two_tokens(v@),
{
    let a = skip_ws_e(v, 0);
    if a >= v.len() {
        return (false, false);
    }
    let b = tok_end_e(v, a);
    let c = skip_ws_e(v, b);
    (c >= v.len(), c < v.len())
}

/// Parses a free-text size to whole megabytes, rounding down. Strips
/// `from `/`~` prefixes and a trailing bracketed annotation; a slash
/// separates two candidate sizes, a unit written only after the second is
/// imputed onto the first, and the minimum of the readable candidates is
/// returned. Unreadable text gives `None`, never an error.
pub fn parse_size_to_mb(size_str: &Option<String>) -> (r: Option<i64>)
    ensures
        size_str is None ==> r is None,
        size_str matches Some(ss) ==> opt_mb_agrees(r, spec_parse_size(ss@)),
{
    let ss = match size_str {
        Some(s) => s,
        None => {
            return None;
        },
    };
    let v0 = crate::text::chars_of(ss.as_str());
    let t0a = trim_leading_e(&v0);
    let t0 = trim_trailing_e(&t0a);
    let t1 = if crate::text::eq_at(&t0, "from ", 0) {
        proof {
            reveal_strlit("from ");
            assert(t0@.skip(5) =~= t0@.subrange(5, t0@.len() as int));
        }
        sub_vec(&t0, 5, t0.len())
    } else {
        proof {
            assert(t0@.subrange(0, t0@.len() as int) =~= t0@);
        }
        sub_vec(&t0, 0, t0.len())
    };
    let t2 = if t1.len() > 0 && t1[0] == '~' {
        proof {
            assert(t1@.drop_first() =~= t1@.subrange(1, t1@.len() as int));
        }
        sub_vec(&t1, 1, t1.len())
    } else {
        proof {
            assert(t1@.subrange(0, t1@.len() as int) =~= t1@);
        }
        sub_vec(&t1, 0, t1.len())
    };
    let t3 = match crate::text::find_char_from(&t2, '[', 0) {
        Some(p) => sub_vec(&t2, 0, p),
        None => {
            proof {
                assert(t2@.subrange(0, t2@.len() as int) =~= t2@);
            }
            sub_vec(&t2, 0, t2.len())
        },
    };
    let ca = trim_leading_e(&t3);
    let core = trim_trailing_e(&ca);
    match crate::text::find_char_from(&core, '/', 0) {
        None => single_mb_vec(&core),
        Some(p) => {
            let left = sub_vec(&core, 0, p);
            let p1a = trim_leading_e(&left);
            let p1 = trim_trailing_e(&p1a);
            let seg = match crate::text::find_char_from(&core, '/', p + 1) {
                Some(q) => sub_vec(&core, p + 1, q),
                None => sub_vec(&core, p + 1, core.len()),
            };
            let p2a = trim_leading_e(&seg);
            let p2 = trim_trailing_e(&p2a);
            let shape1 = token_shape(&p1);
            let shape2 = token_shape(&p2);
            let first: Option<i64> = if shape1.0 && shape2.1 {
                let a2 = skip_ws_e(&p2, 0);
                let b2 = tok_end_e(&p2, a2);
                let c2 = skip_ws_e(&p2, b2);
                let m: Option<u32> = if crate::text::eq_at(&p2, "MB", c2) {
                    Some(1)
                } else if crate::text::eq_at(&p2, "GB", c2) {
                    Some(1024)
                } else if crate::text::eq_at(&p2, "TB", c2) {
                    Some(1048576)
                } else {
                    None
                };
                match m {
                    Some(mu) => {
                        proof {
                            assert(p1@.subrange(0, p1@.len() as int) =~= p1@);
                        }
                        token_mb_e(&p1, 0, p1.len(), mu)
                    },
                    None => None,
                }
            } else {
                single_mb_vec(&p1)
            };
            let second = single_mb_vec(&p2);
            match (first, second) {
                (Some(x), Some(y)) => Some(
                    if x <= y {
                        x
                    } else {
                        y
                    },
                ),
                (Some(x), None) => Some(x),
                (None, Some(y)) => Some(y),
                (None, None) => None,
            }
        },
    }
}

} // verus!

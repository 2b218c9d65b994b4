//! Character-sequence utilities shared by the extraction pipeline: substring
//! search, whitespace handling, and conversions between `String` and
//! `Vec<char>`.

use vstd::prelude::*;

verus! {

/// Whitespace as the normalization rules understand it.
pub open spec fn is_ws(c: char) -> bool {
    c == ' ' || c == '\t' || c == '\n' || c == '\r' || c == '\u{b}' || c == '\u{c}'
}

/// `pat` occurs in `s` starting at position `i`.
pub open spec fn matches_at(s: Seq<char>, pat: Seq<char>, i: int) -> bool {
    &&& 0 <= i
    &&& i + pat.len() <= s.len()
    &&& s.subrange(i, i + pat.len() as int) == pat
}

/// `pat` occurs somewhere in `s`.
pub open spec fn contains_seq(s: Seq<char>, pat: Seq<char>) -> bool {
    exists|i: int| matches_at(s, pat, i)
}

/// Position of the first occurrence of `pat` in `s` at or after `from`.
pub open spec fn spec_find(s: Seq<char>, pat: Seq<char>, from: int) -> Option<int>
    decreases s.len() - from + 1,
{
    if from < 0 || from + pat.len() > s.len() {
        None
    } else if matches_at(s, pat, from) {
        Some(from)
    } else {
        spec_find(s, pat, from + 1)
    }
}

pub proof fn lemma_spec_find_some(s: Seq<char>, pat: Seq<char>, from: int)
    requires
        from >= 0,
    ensures
        spec_find(s, pat, from) matches Some(i) ==> {
            &&& from <= i
            &&& matches_at(s, pat, i)
            &&& forall|j: int| from <= j < i ==> !matches_at(s, pat, j)
        },
        spec_find(s, pat, from) is None ==> forall|j: int|
            from <= j ==> !matches_at(s, pat, j),
    decreases s.len() - from + 1,
{
    if from + pat.len() > s.len() {
        assert forall|j: int| from <= j implies !matches_at(s, pat, j) by {
            assert(j + pat.len() > s.len());
        }
    } else if matches_at(s, pat, from) {
    } else {
        lemma_spec_find_some(s, pat, from + 1);
    }
}

/// Compare `pat` against `s` at position `i`.
pub fn eq_at(s: &Vec<char>, pat: &str, i: usize) -> (r: bool)
    ensures
        r == matches_at(s@, pat@, i as int),
{
    let pn = pat.unicode_len();
    if i > s.len() || pn > s.len() - i {
        proof {
            assert(!matches_at(s@, pat@, i as int));
        }
        return false;
    }
    let mut k: usize = 0;
    while k < pn
        invariant
            k <= pn,
            i + pn <= s.len(),
            pn == pat@.len(),
            forall|m: int| 0 <= m < k ==> s@[i + m] == pat@[m],
        decreases pn - k,
    {
        if s[i + k] != pat.get_char(k) {
            proof {
                assert(s@.subrange(i as int, i + pat@.len()) != pat@) by {
                    assert(s@.subrange(i as int, i + pat@.len())[k as int] != pat@[k as int]);
                }
            }
            return false;
        }
        k += 1;
    }
    proof {
        assert(s@.subrange(i as int, i + pat@.len()) =~= pat@);
    }
    true
}

/// First occurrence of `pat` in `s` at or after `from`.
pub fn find_from(s: &Vec<char>, pat: &str, from: usize) -> (r: Option<usize>)
    ensures
        match r {
            Some(i) => from <= i && spec_find(s@, pat@, from as int) == Some(i as int),
            None => spec_find(s@, pat@, from as int) is None,
        },
{
    let mut i: usize = from;
    loop
        invariant
            from <= i,
            spec_find(s@, pat@, from as int) == spec_find(s@, pat@, i as int),
        decreases s@.len() + 1 - i,
    {
        if i > s.len() || pat.unicode_len() > s.len() - i {
            proof {
                assert(spec_find(s@, pat@, i as int) is None);
            }
            return None;
        }
        if eq_at(s, pat, i) {
            return Some(i);
        }
        proof {
            if pat@.len() == 0 {
                assert(s@.subrange(i as int, i as int) =~= pat@);
            }
        }
        i += 1;
    }
}

/// `pat` occurs somewhere in `s`.
pub fn contains_str(s: &Vec<char>, pat: &str) -> (r: bool)
    ensures
        r == contains_seq(s@, pat@),
{
    let r = find_from(s, pat, 0);
    proof {
        lemma_spec_find_some(s@, pat@, 0);
    }
    r.is_some()
}

/// Position of the first occurrence of character `c` in `s` at or after
/// `from`.
pub open spec fn spec_find_char(s: Seq<char>, c: char, from: int) -> Option<int>
    decreases s.len() - from + 1,
{
    if from < 0 || from >= s.len() {
        None
    } else if s[from] == c {
        Some(from)
    } else {
        spec_find_char(s, c, from + 1)
    }
}

pub proof fn lemma_spec_find_char(s: Seq<char>, c: char, from: int)
    requires
        from >= 0,
    ensures
        spec_find_char(s, c, from) matches Some(i) ==> {
            &&& from <= i < s.len()
            &&& s[i] == c
            &&& forall|j: int| from <= j < i ==> s[j] != c
        },
        spec_find_char(s, c, from) is None ==> forall|j: int|
            from <= j < s.len() ==> s[j] != c,
    decreases s.len() - from + 1,
{
    if from < s.len() && s[from] != c {
        lemma_spec_find_char(s, c, from + 1);
    }
}

/// First occurrence of character `c` in `s` at or after `from`.
pub fn find_char_from(s: &Vec<char>, c: char, from: usize) -> (r: Option<usize>)
    ensures
        match r {
            Some(i) => from <= i && i < s@.len() && spec_find_char(s@, c, from as int) == Some(
                i as int,
            ),
            None => spec_find_char(s@, c, from as int) is None,
        },
{
    let mut i: usize = from;
    while i < s.len()
        invariant
            from <= i,
            spec_find_char(s@, c, from as int) == spec_find_char(s@, c, i as int),
        decreases s@.len() - i,
    {
        if s[i] == c {
            return Some(i);
        }
        i += 1;
    }
    None
}

/// The characters of `s`, in order.
pub fn chars_of(s: &str) -> (r: Vec<char>)
    ensures
        r@ == s@,
{
    let n = s.unicode_len();
    let mut r: Vec<char> = Vec::new();
    let mut i: usize = 0;
    while i < n
        invariant
            i <= n,
            n == s@.len(),
            r@ == s@.subrange(0, i as int),
        decreases n - i,
    {
        r.push(s.get_char(i));
        proof {
            assert(r@ =~= s@.subrange(0, i + 1));
        }
        i += 1;
    }
    proof {
        assert(r@ =~= s@);
    }
    r
}

/// Relies on `core::iter::Iterator::collect`: collecting `char`s into a
/// `String` yields the string of exactly those characters in order.
#[verifier::external_body]
pub fn string_from_chars(v: &Vec<char>) -> (r: String)
    ensures
        r@ == v@,
{
    v.iter().collect()
}

pub fn is_ws_e(c: char) -> (r: bool)
    ensures
        r == is_ws(c),
{
    c == ' ' || c == '\t' || c == '\n' || c == '\r' || c == '\u{b}' || c == '\u{c}'
}

/// Leading whitespace removed.
pub open spec fn trim_leading(s: Seq<char>) -> Seq<char>
    decreases s.len(),
{
    if s.len() > 0 && is_ws(s[0]) {
        trim_leading(s.drop_first())
    } else {
        s
    }
}

/// Trailing whitespace removed.
pub open spec fn trim_trailing(s: Seq<char>) -> Seq<char>
    decreases s.len(),
{
    if s.len() > 0 && is_ws(s[s.len() - 1]) {
        trim_trailing(s.drop_last())
    } else {
        s
    }
}

/// A copy of the range `[a, b)` of `s`.
pub fn sub_vec(s: &Vec<char>, a: usize, b: usize) -> (r: Vec<char>)
    requires
        a <= b <= s@.len(),
    ensures
        r@ == s@.subrange(a as int, b as int),
{
    let mut r: Vec<char> = Vec::new();
    let mut k: usize = a;
    while k < b
        invariant
            a <= k <= b <= s@.len(),
            r@ == s@.subrange(a as int, k as int),
        decreases b - k,
    {
        r.push(s[k]);
        proof {
            assert(r@ =~= s@.subrange(a as int, k + 1));
        }
        k += 1;
    }
    r
}

/// The two vectors hold the same characters.
pub fn vec_eq(a: &Vec<char>, b: &Vec<char>) -> (r: bool)
    ensures
        r == (a@ == b@),
{
    if a.len() != b.len() {
        return false;
    }
    let mut k: usize = 0;
    while k < a.len()
        invariant
            k <= a@.len(),
            a@.len() == b@.len(),
            forall|m: int| 0 <= m < k ==> a@[m] == b@[m],
        decreases a@.len() - k,
    {
        if a[k] != b[k] {
            return false;
        }
        k += 1;
    }
    proof {
        assert(a@ =~= b@);
    }
    true
}

pub fn trim_leading_e(s: &Vec<char>) -> (r: Vec<char>)
    ensures
        r@ == trim_leading(s@),
{
    let mut a: usize = 0;
    proof {
        assert(s@.subrange(0, s@.len() as int) =~= s@);
    }
    while a < s.len() && is_ws_e(s[a])
        invariant
            a <= s@.len(),
            trim_leading(s@) == trim_leading(s@.subrange(a as int, s@.len() as int)),
        decreases s@.len() - a,
    {
        proof {
            assert(s@.subrange(a as int, s@.len() as int).drop_first() =~= s@.subrange(
                a + 1,
                s@.len() as int,
            ));
        }
        a += 1;
    }
    proof {
        assert(s@.subrange(a as int, s@.len() as int) == trim_leading(
            s@.subrange(a as int, s@.len() as int),
        ));
    }
    sub_vec(s, a, s.len())
}

pub fn trim_trailing_e(s: &Vec<char>) -> (r: Vec<char>)
    ensures
        r@ == trim_trailing(s@),
{
    let mut b: usize = s.len();
    proof {
        assert(s@.subrange(0, s@.len() as int) =~= s@);
    }
    while b > 0 && is_ws_e(s[b - 1])
        invariant
            b <= s@.len(),
            trim_trailing(s@) == trim_trailing(s@.subrange(0, b as int)),
        decreases b,
    {
        proof {
            assert(s@.subrange(0, b as int).drop_last() =~= s@.subrange(0, b - 1));
        }
        b -= 1;
    }
    proof {
        assert(s@.subrange(0, b as int) == trim_trailing(s@.subrange(0, b as int)));
    }
    sub_vec(s, 0, b)
}

pub open spec fn is_digit(c: char) -> bool {
    '0' <= c && c <= '9'
}


/// End of the run of whitespace that starts at `i`.
pub open spec fn skip_ws(s: Seq<char>, i: int) -> int
    decreases s.len() - i,
{
    if 0 <= i && i < s.len() && is_ws(s[i]) {
        skip_ws(s, i + 1)
    } else {
        i
    }
}

pub proof fn lemma_skip_ws(s: Seq<char>, i: int)
    requires
        0 <= i <= s.len(),
    ensures
        i <= skip_ws(s, i) <= s.len(),
    decreases s.len() - i,
{
    if i < s.len() && is_ws(s[i]) {
        lemma_skip_ws(s, i + 1);
    }
}

/// End of the run of decimal digits that starts at `i`.
pub open spec fn skip_digits(s: Seq<char>, i: int) -> int
    decreases s.len() - i,
{
    if 0 <= i && i < s.len() && is_digit(s[i]) {
        skip_digits(s, i + 1)
    } else {
        i
    }
}

pub proof fn lemma_skip_digits(s: Seq<char>, i: int)
    requires
        0 <= i <= s.len(),
    ensures
        i <= skip_digits(s, i) <= s.len(),
        i < s.len() && is_digit(s[i]) ==> i + 1 <= skip_digits(s, i),
    decreases s.len() - i,
{
    if i < s.len() && is_digit(s[i]) {
        lemma_skip_digits(s, i + 1);
    }
}


pub fn is_digit_e(c: char) -> (r: bool)
    ensures
        r == is_digit(c),
{
    c >= '0' && c <= '9'
}


pub fn skip_ws_e(s: &Vec<char>, i: usize) -> (r: usize)
    requires
        i <= s@.len(),
    ensures
        r as int == skip_ws(s@, i as int),
        i <= r <= s@.len(),
{
    let mut j = i;
    while j < s.len() && is_ws_e(s[j])
        invariant
            i <= j <= s@.len(),
            skip_ws(s@, i as int) == skip_ws(s@, j as int),
        decreases s@.len() - j,
    {
        j += 1;
    }
    j
}

pub fn skip_digits_e(s: &Vec<char>, i: usize) -> (r: usize)
    requires
        i <= s@.len(),
    ensures
        r as int == skip_digits(s@, i as int),
        i <= r <= s@.len(),
{
    let mut j = i;
    while j < s.len() && is_digit_e(s[j])
        invariant
            i <= j <= s@.len(),
            skip_digits(s@, i as int) == skip_digits(s@, j as int),
        decreases s@.len() - j,
    {
        j += 1;
    }
    j
}



/// `s` with every occurrence of `pat` replaced by `repl`, scanning left to
/// right without overlap; an empty pattern changes nothing.
pub open spec fn replace_seq(s: Seq<char>, pat: Seq<char>, repl: Seq<char>) -> Seq<char>
    decreases s.len(),
{
    if pat.len() == 0 {
        s
    } else {
        match spec_find(s, pat, 0) {
            None => s,
            Some(p) => {
                proof {
                    lemma_spec_find_some(s, pat, 0);
                }
                s.subrange(0, p) + repl + replace_seq(s.skip(p + pat.len()), pat, repl)
            },
        }
    }
}

/// Replaces every occurrence of `pat` by `repl`, executably.
#[verifier::loop_isolation(false)]
pub fn replace_str(s: &Vec<char>, pat: &str, repl: &str) -> (r: Vec<char>)
    ensures
        r@ == replace_seq(s@, pat@, repl@),
    decreases s@.len(),
{
    if pat.unicode_len() == 0 {
        proof {
            assert(s@.subrange(0, s@.len() as int) =~= s@);
        }
        return sub_vec(s, 0, s.len());
    }
    match find_from(s, pat, 0) {
        None => {
            proof {
                assert(s@.subrange(0, s@.len() as int) =~= s@);
            }
            sub_vec(s, 0, s.len())
        },
        Some(p) => {
            proof {
                lemma_spec_find_some(s@, pat@, 0);
            }
            let mut out = sub_vec(s, 0, p);
            let rv = chars_of(repl);
            let mut k: usize = 0;
            while k < rv.len()
                invariant
                    k <= rv@.len(),
                    out@ == s@.subrange(0, p as int) + rv@.subrange(0, k as int),
                decreases rv@.len() - k,
            {
                out.push(rv[k]);
                proof {
                    assert(out@ =~= s@.subrange(0, p as int) + rv@.subrange(0, k + 1));
                }
                k += 1;
            }
            let n = s.len();
            let tail_src = sub_vec(s, p + pat.unicode_len(), n);
            proof {
                assert(tail_src@ =~= s@.skip(p + pat@.len()));
            }
            let mut tail = replace_str(&tail_src, pat, repl);
            out.append(&mut tail);
            proof {
                assert(rv@.subrange(0, rv@.len() as int) =~= repl@);
                assert(out@ =~= s@.subrange(0, p as int) + repl@ + replace_seq(
                    s@.skip(p + pat@.len()),
                    pat@,
                    repl@,
                ));
            }
            out
        },
    }
}

/// The decimal digit character of `n`.
pub open spec fn dec_digit(n: int) -> char {
    if n == 0 {
        '0'
    } else if n == 1 {
        '1'
    } else if n == 2 {
        '2'
    } else if n == 3 {
        '3'
    } else if n == 4 {
        '4'
    } else if n == 5 {
        '5'
    } else if n == 6 {
        '6'
    } else if n == 7 {
        '7'
    } else if n == 8 {
        '8'
    } else {
        '9'
    }
}

/// The decimal digits of `n`, most significant first.
pub open spec fn spec_dec_str(n: nat) -> Seq<char>
    decreases n,
{
    if n < 10 {
        seq![dec_digit(n as int)]
    } else {
        spec_dec_str(n / 10) + seq![dec_digit((n % 10) as int)]
    }
}

fn dec_digit_e(d: u64) -> (r: char)
    requires
        d < 10,
    ensures
        r == dec_digit(d as int),
{
    if d == 0 {
        '0'
    } else if d == 1 {
        '1'
    } else if d == 2 {
        '2'
    } else if d == 3 {
        '3'
    } else if d == 4 {
        '4'
    } else if d == 5 {
        '5'
    } else if d == 6 {
        '6'
    } else if d == 7 {
        '7'
    } else if d == 8 {
        '8'
    } else {
        '9'
    }
}

fn dec_chars(n: u64) -> (r: Vec<char>)
    ensures
        r@ == spec_dec_str(n as nat),
    decreases n,
{
    if n < 10 {
        let mut v: Vec<char> = Vec::new();
        v.push(dec_digit_e(n));
        proof {
            assert(v@ =~= seq![dec_digit(n as int)]);
        }
        v
    } else {
        let mut v = dec_chars(n / 10);
        v.push(dec_digit_e(n % 10));
        proof {
            assert(v@ =~= spec_dec_str((n / 10) as nat) + seq![dec_digit((n % 10) as int)]);
        }
        v
    }
}

/// The decimal text of `n`.
pub fn u64_to_dec_string(n: u64) -> (r: String)
    ensures
        r@ == spec_dec_str(n as nat),
{
    let v = dec_chars(n);
    string_from_chars(&v)
}


/// The vector holds exactly the characters of `s`.
pub fn vec_eq_str(v: &Vec<char>, s: &str) -> (r: bool)
    ensures
        r == (v@ == s@),
{
    let n = s.unicode_len();
    if v.len() != n {
        return false;
    }
    let r = eq_at(v, s, 0);
    proof {
        assert(v@.subrange(0, s@.len() as int) =~= v@);
    }
    r
}


/// `s` ends with `pat`.
pub open spec fn ends_seq(s: Seq<char>, pat: Seq<char>) -> bool {
    pat.len() <= s.len() && s.subrange(s.len() - pat.len(), s.len() as int) == pat
}

/// Whether `v` ends with `pat`, executably.
pub fn ends_with_str(v: &Vec<char>, pat: &str) -> (r: bool)
    ensures
        r == ends_seq(v@, pat@),
{
    let pl = pat.unicode_len();
    if pl > v.len() {
        return false;
    }
    eq_at(v, pat, v.len() - pl)
}

} // verus!

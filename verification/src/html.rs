//! Best-effort scanning over raw HTML text: locating tags, reading quoted
//! attributes, extracting visible text, and finding an element's matching
//! close. The catalog pages are semi-structured, so the pipeline reads them
//! with ordered substring scans rather than a strict grammar.

use vstd::prelude::*;
use crate::text::find_char_from;
use crate::text::find_from;
use crate::text::is_ws;
use crate::text::is_ws_e;
use crate::text::lemma_spec_find_char;
use crate::text::lemma_spec_find_some;
use crate::text::matches_at;
use crate::text::spec_find;
use crate::text::spec_find_char;
use crate::text::sub_vec;

verus! {

/// What may follow a tag name inside its tag.
pub open spec fn tag_boundary(c: char) -> bool {
    is_ws(c) || c == '>' || c == '/'
}

pub fn tag_boundary_e(c: char) -> (r: bool)
    ensures
        r == tag_boundary(c),
{
    is_ws_e(c) || c == '>' || c == '/'
}

/// A tag whose text starts with `pat` (such as `<h3` or `</div`) opens at
/// `i`.
pub open spec fn is_tag_at(s: Seq<char>, pat: Seq<char>, i: int) -> bool {
    matches_at(s, pat, i) && i + pat.len() < s.len() && tag_boundary(s[i + pat.len()])
}

/// First position at or after `from` where a `pat` tag starts.
pub open spec fn spec_find_tag(s: Seq<char>, pat: Seq<char>, from: int) -> Option<int>
    decreases s.len() - from + 1,
{
    if from < 0 || from >= s.len() {
        None
    } else if is_tag_at(s, pat, from) {
        Some(from)
    } else {
        spec_find_tag(s, pat, from + 1)
    }
}

pub proof fn lemma_spec_find_tag(s: Seq<char>, pat: Seq<char>, from: int)
    requires
        from >= 0,
    ensures
        spec_find_tag(s, pat, from) matches Some(i) ==> {
            &&& from <= i < s.len()
            &&& is_tag_at(s, pat, i)
        },
    decreases s.len() - from + 1,
{
    if 0 <= from < s.len() && !is_tag_at(s, pat, from) {
        lemma_spec_find_tag(s, pat, from + 1);
    }
}

/// First `pat` tag at or after `from`, executably.
pub fn find_tag(s: &Vec<char>, pat: &str, from: usize) -> (r: Option<usize>)
    ensures
        match r {
            Some(i) => from <= i && i < s@.len() && spec_find_tag(s@, pat@, from as int) == Some(
                i as int,
            ),
            None => spec_find_tag(s@, pat@, from as int) is None,
        },
{
    let mut i: usize = from;
    while i < s.len()
        invariant
            from <= i,
            spec_find_tag(s@, pat@, from as int) == spec_find_tag(s@, pat@, i as int),
        decreases s@.len() - i,
    {
        if crate::text::eq_at(s, pat, i) {
            let pn = pat.unicode_len();
            if i + pn < s.len() && tag_boundary_e(s[i + pn]) {
                return Some(i);
            }
        }
        i += 1;
    }
    None
}

/// The value of the attribute whose double- and single-quoted heads are
/// `pat_dq` and `pat_sq` (such as ` href="` and ` href='`) inside the tag
/// text `[a, b)`: the text up to the closing quote, double quotes tried
/// first.
pub open spec fn spec_attr(s: Seq<char>, a: int, b: int, pat_dq: Seq<char>, pat_sq: Seq<char>) -> Option<
    Seq<char>,
> {
    let win = s.subrange(a, b);
    match spec_find(win, pat_dq, 0) {
        Some(p) => {
            let st = p + pat_dq.len();
            match spec_find_char(win, '"', st) {
                Some(q) => Some(win.subrange(st, q)),
                None => None,
            }
        },
        None => match spec_find(win, pat_sq, 0) {
            Some(p) => {
                let st = p + pat_sq.len();
                match spec_find_char(win, '\'', st) {
                    Some(q) => Some(win.subrange(st, q)),
                    None => None,
                }
            },
            None => None,
        },
    }
}

/// Reads a quoted attribute value out of the tag text `[a, b)`.
pub fn attr_value(s: &Vec<char>, a: usize, b: usize, pat_dq: &str, pat_sq: &str) -> (r: Option<
    Vec<char>,
>)
    requires
        a <= b <= s@.len(),
    ensures
        match r {
            Some(v) => spec_attr(s@, a as int, b as int, pat_dq@, pat_sq@) == Some(v@),
            None => spec_attr(s@, a as int, b as int, pat_dq@, pat_sq@) is None,
        },
{
    let win = sub_vec(s, a, b);
    match find_from(&win, pat_dq, 0) {
        Some(p) => {
            proof {
                lemma_spec_find_some(win@, pat_dq@, 0);
            }
            let st = p + pat_dq.unicode_len();
            match find_char_from(&win, '"', st) {
                Some(q) => {
                    proof {
                        lemma_spec_find_char(win@, '"', st as int);
                    }
                    Some(sub_vec(&win, st, q))
                },
                None => None,
            }
        },
        None => match find_from(&win, pat_sq, 0) {
            Some(p) => {
                proof {
                    lemma_spec_find_some(win@, pat_sq@, 0);
                }
                let st = p + pat_sq.unicode_len();
                match find_char_from(&win, '\'', st) {
                    Some(q) => {
                        proof {
                            lemma_spec_find_char(win@, '\'', st as int);
                        }
                        Some(sub_vec(&win, st, q))
                    },
                    None => None,
                }
            },
            None => None,
        },
    }
}

/// Visible text of an HTML span: tags are dropped, the six common
/// entities are decoded, everything else is kept.
pub open spec fn strip_markup(s: Seq<char>) -> Seq<char>
    decreases s.len(),
{
    if s.len() == 0 {
        s
    } else if s[0] == '<' {
        match spec_find_char(s, '>', 1) {
            Some(p) => {
                proof {
                    lemma_spec_find_char(s, '>', 1);
                }
                strip_markup(s.skip(p + 1))
            },
            None => Seq::empty(),
        }
    } else if matches_at(s, "&amp;"@, 0) {
        proof {
            reveal_strlit("&amp;");
        }
        seq!['&'] + strip_markup(s.skip(5))
    } else if matches_at(s, "&lt;"@, 0) {
        proof {
            reveal_strlit("&lt;");
        }
        seq!['<'] + strip_markup(s.skip(4))
    } else if matches_at(s, "&gt;"@, 0) {
        proof {
            reveal_strlit("&gt;");
        }
        seq!['>'] + strip_markup(s.skip(4))
    } else if matches_at(s, "&quot;"@, 0) {
        proof {
            reveal_strlit("&quot;");
        }
        seq!['"'] + strip_markup(s.skip(6))
    } else if matches_at(s, "&#038;"@, 0) {
        proof {
            reveal_strlit("&#038;");
        }
        seq!['&'] + strip_markup(s.skip(6))
    } else if matches_at(s, "&nbsp;"@, 0) {
        proof {
            reveal_strlit("&nbsp;");
        }
        seq![' '] + strip_markup(s.skip(6))
    } else {
        seq![s[0]] + strip_markup(s.drop_first())
    }
}

/// Visible text of the span `[a, b)`, executably.
#[verifier::loop_isolation(false)]
#[verifier::rlimit(50)]
pub fn inner_text(s: &Vec<char>, a: usize, b: usize) -> (r: Vec<char>)
    requires
        a <= b <= s@.len(),
    ensures
        r@ == strip_markup(s@.subrange(a as int, b as int)),
{
    let win = sub_vec(s, a, b);
    let mut out: Vec<char> = Vec::new();
    let mut k: usize = 0;
    proof {
        assert(win@.skip(0) =~= win@);
    }
    while k < win.len()
        invariant
            k <= win@.len(),
            strip_markup(win@) == out@ + strip_markup(win@.skip(k as int)),
        decreases win@.len() - k,
    {
        let ghost rest = win@.skip(k as int);
        let ghost out0 = out@;
        proof {
            assert(rest[0] == win@[k as int]);
            assert(rest.drop_first() =~= win@.skip(k + 1));
            lemma_no_entity_window(win@, k as int);
        }
        if win[k] == '<' {
            match find_char_from(&win, '>', k + 1) {
                Some(p) => {
                    proof {
                        lemma_spec_find_char(win@, '>', k + 1);
                        lemma_find_char_window(win@, '>', k as int, p as int);
                        assert(rest.skip(p + 1 - k) =~= win@.skip(p + 1));
                    }
                    k = p + 1;
                },
                None => {
                    proof {
                        lemma_spec_find_char(win@, '>', k + 1);
                        lemma_find_char_window_none(win@, '>', k as int);
                        assert(out@ + Seq::<char>::empty() =~= out@);
                    }
                    return out;
                },
            }
        } else if crate::text::eq_at(&win, "&amp;", k) {
            proof {
                reveal_strlit("&amp;");
                lemma_matches_window(win@, "&amp;"@, k as int);
                assert(rest.skip(5) =~= win@.skip(k + 5));
            }
            out.push('&');
            proof {
                assert(out@ + strip_markup(win@.skip(k + 5)) =~= out0 + (seq!['&'] + strip_markup(
                    win@.skip(k + 5),
                )));
            }
            k = k + 5;
        } else if crate::text::eq_at(&win, "&lt;", k) {
            proof {
                reveal_strlit("&lt;");
                lemma_matches_window(win@, "&lt;"@, k as int);
                assert(rest.skip(4) =~= win@.skip(k + 4));
            }
            out.push('<');
            proof {
                assert(out@ + strip_markup(win@.skip(k + 4)) =~= out0 + (seq!['<'] + strip_markup(
                    win@.skip(k + 4),
                )));
            }
            k = k + 4;
        } else if crate::text::eq_at(&win, "&gt;", k) {
            proof {
                reveal_strlit("&gt;");
                lemma_matches_window(win@, "&gt;"@, k as int);
                assert(rest.skip(4) =~= win@.skip(k + 4));
            }
            out.push('>');
            proof {
                assert(out@ + strip_markup(win@.skip(k + 4)) =~= out0 + (seq!['>'] + strip_markup(
                    win@.skip(k + 4),
                )));
            }
            k = k + 4;
        } else if crate::text::eq_at(&win, "&quot;", k) {
            proof {
                reveal_strlit("&quot;");
                lemma_matches_window(win@, "&quot;"@, k as int);
                assert(rest.skip(6) =~= win@.skip(k + 6));
            }
            out.push('"');
            proof {
                assert(out@ + strip_markup(win@.skip(k + 6)) =~= out0 + (seq!['"'] + strip_markup(
                    win@.skip(k + 6),
                )));
            }
            k = k + 6;
        } else if crate::text::eq_at(&win, "&#038;", k) {
            proof {
                reveal_strlit("&#038;");
                lemma_matches_window(win@, "&#038;"@, k as int);
                assert(rest.skip(6) =~= win@.skip(k + 6));
            }
            out.push('&');
            proof {
                assert(out@ + strip_markup(win@.skip(k + 6)) =~= out0 + (seq!['&'] + strip_markup(
                    win@.skip(k + 6),
                )));
            }
            k = k + 6;
        } else if crate::text::eq_at(&win, "&nbsp;", k) {
            proof {
                reveal_strlit("&nbsp;");
                lemma_matches_window(win@, "&nbsp;"@, k as int);
                assert(rest.skip(6) =~= win@.skip(k + 6));
            }
            out.push(' ');
            proof {
                assert(out@ + strip_markup(win@.skip(k + 6)) =~= out0 + (seq![' '] + strip_markup(
                    win@.skip(k + 6),
                )));
            }
            k = k + 6;
        } else {
            out.push(win[k]);
            proof {
                assert(out@ + strip_markup(win@.skip(k + 1)) =~= out0 + (seq![win@[k as int]]
                    + strip_markup(win@.skip(k + 1))));
            }
            k = k + 1;
        }
    }
    proof {
        assert(win@.skip(win@.len() as int) =~= Seq::<char>::empty());
        assert(out@ + Seq::<char>::empty() =~= out@);
    }
    out
}

/// A match at `k` of the whole text is a match at the head of the tail
/// window.
proof fn lemma_matches_window(s: Seq<char>, pat: Seq<char>, k: int)
    requires
        0 <= k <= s.len(),
    ensures
        matches_at(s, pat, k) == matches_at(s.skip(k), pat, 0),
{
    if matches_at(s, pat, k) {
        assert(s.skip(k).subrange(0, pat.len() as int) =~= s.subrange(k, k + pat.len()));
    } else if matches_at(s.skip(k), pat, 0) {
        assert(s.subrange(k, k + pat.len()) =~= s.skip(k).subrange(0, pat.len() as int));
    }
}

/// The first `c` in the tail window sits where the first `c` after `k`
/// sits in the whole text.
proof fn lemma_find_char_window(s: Seq<char>, c: char, k: int, p: int)
    requires
        0 <= k < s.len(),
        spec_find_char(s, c, k + 1) == Some(p),
    ensures
        spec_find_char(s.skip(k), c, 1) == Some(p - k),
{
    lemma_spec_find_char(s, c, k + 1);
    lemma_spec_find_char(s.skip(k), c, 1);
    let w = s.skip(k);
    assert(w[p - k] == c);
    if let Some(q) = spec_find_char(w, c, 1) {
        assert(s[q + k] == w[q]);
        if q + k < p {
            assert(s[q + k] != c);
        }
        if q > p - k {
            assert(w[p - k] != c);
        }
    } else {
        assert(w[p - k] != c);
    }
}

proof fn lemma_find_char_window_none(s: Seq<char>, c: char, k: int)
    requires
        0 <= k < s.len(),
        spec_find_char(s, c, k + 1) is None,
    ensures
        spec_find_char(s.skip(k), c, 1) is None,
{
    lemma_spec_find_char(s, c, k + 1);
    lemma_spec_find_char(s.skip(k), c, 1);
    let w = s.skip(k);
    if let Some(q) = spec_find_char(w, c, 1) {
        assert(s[q + k] == w[q]);
    }
}

/// No entity matches at the head of the tail window when none matches at
/// `k` in the whole text.
proof fn lemma_no_entity_window(s: Seq<char>, k: int)
    requires
        0 <= k < s.len(),
    ensures
        matches_at(s, "&amp;"@, k) == matches_at(s.skip(k), "&amp;"@, 0),
        matches_at(s, "&lt;"@, k) == matches_at(s.skip(k), "&lt;"@, 0),
        matches_at(s, "&gt;"@, k) == matches_at(s.skip(k), "&gt;"@, 0),
        matches_at(s, "&quot;"@, k) == matches_at(s.skip(k), "&quot;"@, 0),
        matches_at(s, "&#038;"@, k) == matches_at(s.skip(k), "&#038;"@, 0),
        matches_at(s, "&nbsp;"@, k) == matches_at(s.skip(k), "&nbsp;"@, 0),
{
    lemma_matches_window(s, "&amp;"@, k);
    lemma_matches_window(s, "&lt;"@, k);
    lemma_matches_window(s, "&gt;"@, k);
    lemma_matches_window(s, "&quot;"@, k);
    lemma_matches_window(s, "&#038;"@, k);
    lemma_matches_window(s, "&nbsp;"@, k);
}


/// Where the content of an element ends: the start of the matching close
/// tag, with nested elements of the same name counted by `depth`, or the
/// end of the text when the element is never closed.
pub open spec fn spec_element_end(
    s: Seq<char>,
    p: int,
    open_pat: Seq<char>,
    close_pat: Seq<char>,
    depth: nat,
) -> int
    decreases s.len() - p + 1,
{
    if p < 0 || p >= s.len() || open_pat.len() == 0 || close_pat.len() == 0 {
        s.len() as int
    } else {
        let o = spec_find_tag(s, open_pat, p);
        let c = spec_find_tag(s, close_pat, p);
        match c {
            None => s.len() as int,
            Some(ci) => match o {
                Some(oi) => if oi < ci {
                    proof {
                        lemma_spec_find_tag(s, open_pat, p);
                    }
                    spec_element_end(s, oi + open_pat.len(), open_pat, close_pat, depth + 1)
                } else if depth == 0 {
                    ci
                } else {
                    proof {
                        lemma_spec_find_tag(s, close_pat, p);
                    }
                    spec_element_end(s, ci + close_pat.len(), open_pat, close_pat, (depth - 1) as nat)
                },
                None => if depth == 0 {
                    ci
                } else {
                    proof {
                        lemma_spec_find_tag(s, close_pat, p);
                    }
                    spec_element_end(s, ci + close_pat.len(), open_pat, close_pat, (depth - 1) as nat)
                },
            },
        }
    }
}

pub proof fn lemma_spec_element_end(
    s: Seq<char>,
    p: int,
    open_pat: Seq<char>,
    close_pat: Seq<char>,
    depth: nat,
)
    ensures
        spec_element_end(s, p, open_pat, close_pat, depth) <= s.len(),
        p <= s.len() ==> p <= spec_element_end(s, p, open_pat, close_pat, depth),
    decreases s.len() - p + 1,
{
    if p < 0 || p >= s.len() || open_pat.len() == 0 || close_pat.len() == 0 {
    } else {
        lemma_spec_find_tag(s, open_pat, p);
        lemma_spec_find_tag(s, close_pat, p);
        let o = spec_find_tag(s, open_pat, p);
        let c = spec_find_tag(s, close_pat, p);
        if let Some(ci) = c {
            if let Some(oi) = o {
                if oi < ci {
                    lemma_spec_element_end(s, oi + open_pat.len(), open_pat, close_pat, depth + 1);
                } else if depth != 0 {
                    lemma_spec_element_end(
                        s,
                        ci + close_pat.len(),
                        open_pat,
                        close_pat,
                        (depth - 1) as nat,
                    );
                }
            } else if depth != 0 {
                lemma_spec_element_end(
                    s,
                    ci + close_pat.len(),
                    open_pat,
                    close_pat,
                    (depth - 1) as nat,
                );
            }
        }
    }
}

/// Where the content that starts at `p` ends, executably.
pub fn element_end(s: &Vec<char>, p: usize, open_pat: &str, close_pat: &str) -> (r: usize)
    requires
        open_pat@.len() >= 2,
        close_pat@.len() >= 1,
    ensures
        r as int == spec_element_end(s@, p as int, open_pat@, close_pat@, 0),
        r <= s@.len(),
{
    let mut q = p;
    let mut depth: usize = 0;
    loop
        invariant
            depth <= q,
            open_pat@.len() >= 2,
            close_pat@.len() >= 1,
            spec_element_end(s@, p as int, open_pat@, close_pat@, 0) == spec_element_end(
                s@,
                q as int,
                open_pat@,
                close_pat@,
                depth as nat,
            ),
        decreases s@.len() + 1 - q,
    {
        if q >= s.len() {
            return s.len();
        }
        let o = find_tag(s, open_pat, q);
        let c = find_tag(s, close_pat, q);
        match c {
            None => {
                return s.len();
            },
            Some(ci) => {
                let open_first = match o {
                    Some(oi) => oi < ci,
                    None => false,
                };
                if open_first {
                    let oi = match o {
                        Some(x) => x,
                        None => 0,
                    };
                    proof {
                        lemma_spec_find_tag(s@, open_pat@, q as int);
                    }
                    q = oi + open_pat.unicode_len();
                    depth += 1;
                } else {
                    if depth == 0 {
                        proof {
                            lemma_spec_element_end(s@, q as int, open_pat@, close_pat@, 0);
                        }
                        return ci;
                    }
                    depth -= 1;
                    proof {
                        lemma_spec_find_tag(s@, close_pat@, q as int);
                    }
                    q = ci + close_pat.unicode_len();
                }
            },
        }
    }
}

} // verus!

//! Popular-list parsing: grid-of-image widgets in the main content region
//! (month and year lists), the plain award link list, and grid widgets in
//! named sidebar sections (week and today).

use vstd::prelude::*;
use crate::html::attr_value;
use crate::html::element_end;
use crate::html::find_tag;
use crate::html::inner_text;
use crate::html::lemma_spec_element_end;
use crate::html::lemma_spec_find_tag;
use crate::html::spec_attr;
use crate::html::spec_element_end;
use crate::html::spec_find_tag;
use crate::html::strip_markup;
use crate::models::PopularRepackEntry;
use crate::sizes::trim;
use crate::text::chars_of;
use crate::text::contains_seq;
use crate::text::contains_str;
use crate::text::find_char_from;
use crate::text::lemma_spec_find_char;
use crate::text::spec_find_char;
use crate::text::string_from_chars;
use crate::text::trim_leading_e;
use crate::text::trim_trailing_e;

verus! {

/// Why a popular list could not be parsed.
#[derive(Debug, Clone, Copy, PartialEq, Eq, Structural)]
pub enum ParseError {
    /// The page has no article content region.
    NoContentRegion,
    /// The award page has no curated link list.
    NoAwardList,
    /// No sidebar section with the wanted heading held any entries.
    EmptySidebarSection,
}

/// The first grid entry inside `[a, b)`: the anchor's target and title and
/// the first image's source.
pub open spec fn spec_grid_entry(c: Seq<char>, a: int, b: int) -> Option<
    (Seq<char>, Seq<char>, Option<Seq<char>>),
> {
    match spec_find_tag(c, "<a"@, a) {
        None => None,
        Some(t) => if t >= b {
            None
        } else {
            match spec_find_char(c, '>', t) {
                None => None,
                Some(te) => {
                    let url = match spec_attr(c, t, te, " href=\""@, " href='"@) {
                        Some(u) => u,
                        None => Seq::empty(),
                    };
                    let title = match spec_attr(c, t, te, " title=\""@, " title='"@) {
                        Some(u) => u,
                        None => Seq::empty(),
                    };
                    let img = match spec_find_tag(c, "<img"@, a) {
                        Some(it) => if it < b {
                            match spec_find_char(c, '>', it) {
                                Some(ite) => spec_attr(c, it, ite, " src=\""@, " src='"@),
                                None => None,
                            }
                        } else {
                            None
                        },
                        None => None,
                    };
                    Some((url, title, img))
                },
            }
        },
    }
}

/// The grid entries of `[p, lim)`: every division whose class marks it a
/// grid image widget, its first anchor carrying both a target and a title.
pub open spec fn spec_grid_entries(c: Seq<char>, p: int, lim: int) -> Seq<
    (Seq<char>, Seq<char>, Option<Seq<char>>),
>
    decreases c.len() - p + 1,
{
    if p < 0 {
        Seq::empty()
    } else {
        match spec_find_tag(c, "<div"@, p) {
            None => Seq::empty(),
            Some(t) => if t >= lim {
                Seq::empty()
            } else {
                proof {
                    lemma_spec_find_tag(c, "<div"@, p);
                }
                match spec_find_char(c, '>', t) {
                    None => Seq::empty(),
                    Some(te) => {
                        proof {
                            lemma_spec_find_char(c, '>', t);
                        }
                        let cls = spec_attr(c, t, te, " class=\""@, " class='"@);
                        let is_grid = match cls {
                            Some(cl) => contains_seq(cl, "widget-grid-view-image"@),
                            None => false,
                        };
                        if is_grid {
                            let iend = spec_element_end(c, te + 1, "<div"@, "</div"@, 0);
                            proof {
                                lemma_spec_element_end(c, te + 1, "<div"@, "</div"@, 0);
                            }
                            let rest = if iend > te {
                                spec_grid_entries(c, iend, lim)
                            } else {
                                Seq::empty()
                            };
                            match spec_grid_entry(c, te + 1, iend) {
                                Some(e) => if e.0.len() > 0 && e.1.len() > 0 {
                                    seq![e] + rest
                                } else {
                                    rest
                                },
                                None => rest,
                            }
                        } else {
                            spec_grid_entries(c, te + 1, lim)
                        }
                    },
                }
            },
        }
    }
}

/// Parsed entries agree with specified ones, field for field.
pub open spec fn entries_agree(
    v: Seq<PopularRepackEntry>,
    sp: Seq<(Seq<char>, Seq<char>, Option<Seq<char>>)>,
) -> bool {
    &&& v.len() == sp.len()
    &&& forall|i: int|
        0 <= i < v.len() ==> {
            &&& (#[trigger] v[i]).url@ == sp[i].0
            &&& v[i].title@ == sp[i].1
            &&& crate::models::opt_str_agrees(v[i].image_url, sp[i].2)
        }
}

/// The span of the article's content region, when the page has one.
pub open spec fn spec_content_span(c: Seq<char>) -> Option<(int, int)> {
    match spec_find_tag(c, "<article"@, 0) {
        None => None,
        Some(ar) => spec_content_span_from(c, ar),
    }
}

/// The first division after `p` whose class marks the content region.
pub open spec fn spec_content_span_from(c: Seq<char>, p: int) -> Option<(int, int)>
    decreases c.len() - p + 1,
{
    if p < 0 {
        None
    } else {
        match spec_find_tag(c, "<div"@, p) {
            None => None,
            Some(t) => {
                proof {
                    lemma_spec_find_tag(c, "<div"@, p);
                }
                match spec_find_char(c, '>', t) {
                    None => None,
                    Some(te) => {
                        proof {
                            lemma_spec_find_char(c, '>', t);
                        }
                        let cls = spec_attr(c, t, te, " class=\""@, " class='"@);
                        let is_content = match cls {
                            Some(cl) => contains_seq(cl, "entry-content"@),
                            None => false,
                        };
                        if is_content {
                            let iend = spec_element_end(c, te + 1, "<div"@, "</div"@, 0);
                            if te + 1 <= iend {
                                Some((te + 1, iend))
                            } else {
                                None
                            }
                        } else {
                            spec_content_span_from(c, te + 1)
                        }
                    },
                }
            },
        }
    }
}

/// The first division after `p` whose class marks the content region,
/// executably.
#[verifier::loop_isolation(false)]
pub(crate) fn content_span_from(c: &Vec<char>, p: usize) -> (r: Option<(usize, usize)>)
    ensures
        match r {
            Some(span) => spec_content_span_from(c@, p as int) == Some(
                (span.0 as int, span.1 as int),
            ) && span.0 <= span.1 <= c@.len(),
            None => spec_content_span_from(c@, p as int) is None,
        },
{
    let n = c.len();
    let mut q = p;
    loop
        invariant
            spec_content_span_from(c@, p as int) == spec_content_span_from(c@, q as int),
        decreases c@.len() + 1 - q,
    {
        let t = match find_tag(c, "<div", q) {
            Some(t) => t,
            None => {
                return None;
            },
        };
        let te = match find_char_from(c, '>', t) {
            Some(te) => te,
            None => {
                return None;
            },
        };
        let cls = attr_value(c, t, te, " class=\"", " class='");
        let is_content = match &cls {
            Some(cl) => contains_str(cl, "entry-content"),
            None => false,
        };
        if is_content {
            proof {
                reveal_strlit("<div");
                reveal_strlit("</div");
            }
            let iend = element_end(c, te + 1, "<div", "</div");
            if te + 1 <= iend {
                return Some((te + 1, iend));
            }
            return None;
        }
        q = te + 1;
    }
}

/// The first grid entry inside `[a, b)`, executably.
fn grid_entry(c: &Vec<char>, a: usize, b: usize) -> (r: Option<(String, String, Option<String>)>)
    requires
        a <= b <= c@.len(),
    ensures
        match r {
            Some(e) => spec_grid_entry(c@, a as int, b as int) matches Some(sp) && e.0@ == sp.0
                && e.1@ == sp.1 && crate::models::opt_str_agrees(e.2, sp.2),
            None => spec_grid_entry(c@, a as int, b as int) is None,
        },
{
    let t = match find_tag(c, "<a", a) {
        Some(t) => t,
        None => {
            return None;
        },
    };
    if t >= b {
        return None;
    }
    let te = match find_char_from(c, '>', t) {
        Some(te) => te,
        None => {
            return None;
        },
    };
    let url = match attr_value(c, t, te, " href=\"", " href='") {
        Some(u) => string_from_chars(&u),
        None => String::new(),
    };
    let title = match attr_value(c, t, te, " title=\"", " title='") {
        Some(u) => string_from_chars(&u),
        None => String::new(),
    };
    let img: Option<String> = match find_tag(c, "<img", a) {
        Some(it) => if it < b {
            match find_char_from(c, '>', it) {
                Some(ite) => match attr_value(c, it, ite, " src=\"", " src='") {
                    Some(u) => Some(string_from_chars(&u)),
                    None => None,
                },
                None => None,
            }
        } else {
            None
        },
        None => None,
    };
    Some((url, title, img))
}

/// The grid entries of `[p, lim)`, executably.
#[verifier::loop_isolation(false)]
fn grid_entries(c: &Vec<char>, p: usize, lim: usize) -> (r: Vec<PopularRepackEntry>)
    requires
        lim <= c@.len(),
    ensures
        entries_agree(r@, spec_grid_entries(c@, p as int, lim as int)),
{
    let n = c.len();
    let ghost target = spec_grid_entries(c@, p as int, lim as int);
    let mut out: Vec<PopularRepackEntry> = Vec::new();
    let mut q = p;
    loop
        invariant
            out@.len() <= target.len(),
            target =~= spec_grid_entries(c@, p as int, lim as int),
            target.skip(out@.len() as int) =~= spec_grid_entries(c@, q as int, lim as int),
            forall|i: int|
                0 <= i < out@.len() ==> {
                    &&& (#[trigger] out@[i]).url@ == target[i].0
                    &&& out@[i].title@ == target[i].1
                    &&& crate::models::opt_str_agrees(out@[i].image_url, target[i].2)
                },
        decreases c@.len() + 1 - q,
    {
        let t = match find_tag(c, "<div", q) {
            Some(t) => t,
            None => {
                proof {
                    assert(target.skip(out@.len() as int).len() == 0);
                }
                return out;
            },
        };
        if t >= lim {
            proof {
                assert(target.skip(out@.len() as int).len() == 0);
            }
            return out;
        }
        let te = match find_char_from(c, '>', t) {
            Some(te) => te,
            None => {
                proof {
                    assert(target.skip(out@.len() as int).len() == 0);
                }
                return out;
            },
        };
        let cls = attr_value(c, t, te, " class=\"", " class='");
        let is_grid = match &cls {
            Some(cl) => contains_str(cl, "widget-grid-view-image"),
            None => false,
        };
        if is_grid {
            proof {
                reveal_strlit("<div");
                reveal_strlit("</div");
            }
            let iend = element_end(c, te + 1, "<div", "</div");
            proof {
                lemma_spec_element_end(c@, te + 1, "<div"@, "</div"@, 0);
            }
            let ghost sp_entry = spec_grid_entry(c@, te + 1, iend as int);
            match grid_entry(c, te + 1, iend) {
                Some(e) => {
                    if e.0.unicode_len() > 0 && e.1.unicode_len() > 0 {
                        let ghost n0 = out@.len() as int;
                        proof {
                            assert(target.skip(n0)[0] == sp_entry.unwrap());
                        }
                        out.push(
                            PopularRepackEntry { url: e.0, title: e.1, image_url: e.2 },
                        );
                        proof {
                            assert(out@[n0].url@ == target[n0].0);
                            assert(out@[n0].title@ == target[n0].1);
                            assert(crate::models::opt_str_agrees(out@[n0].image_url, target[n0].2));
                            assert(target.skip(n0).drop_first() =~= target.skip(n0 + 1));
                        }
                    }
                },
                None => {},
            }
            if iend > te {
                q = iend;
            } else {
                proof {
                    lemma_spec_element_end(c@, te + 1, "<div"@, "</div"@, 0);
                }
                proof {
                    assert(target.skip(out@.len() as int).len() == 0);
                }
                return out;
            }
        } else {
            q = te + 1;
        }
    }
}

/// The ranked popular lists of the catalog site.
pub struct PopularRepacks;

impl PopularRepacks {
    /// Parses a month or year popular page: the grid entries of the
    /// article's content region, in page order. Fails exactly when the
    /// page has no content region.
    pub fn parse_popular_repacks_html(html: &str) -> (r: Result<
        Vec<PopularRepackEntry>,
        ParseError,
    >)
        ensures
            match spec_content_span(html@) {
                None => r == Err::<Vec<PopularRepackEntry>, ParseError>(ParseError::NoContentRegion),
                Some(span) => r matches Ok(v) && entries_agree(
                    v@,
                    spec_grid_entries(html@, span.0, span.1),
                ),
            },
    {
        let c = chars_of(html);
        let ar = match find_tag(&c, "<article", 0) {
            Some(ar) => ar,
            None => {
                return Err(ParseError::NoContentRegion);
            },
        };
        let span = match content_span_from(&c, ar) {
            Some(span) => span,
            None => {
                return Err(ParseError::NoContentRegion);
            },
        };
        Ok(grid_entries(&c, span.0, span.1))
    }
}


/// The span of the first list after `p` whose class marks the curated
/// award list.
pub open spec fn spec_award_ul_span(c: Seq<char>, p: int, lim: int) -> Option<(int, int)>
    decreases c.len() - p + 1,
{
    if p < 0 {
        None
    } else {
        match spec_find_tag(c, "<ul"@, p) {
            None => None,
            Some(t) => if t >= lim {
                None
            } else {
                proof {
                    lemma_spec_find_tag(c, "<ul"@, p);
                }
                match spec_find_char(c, '>', t) {
                    None => None,
                    Some(te) => {
                        proof {
                            lemma_spec_find_char(c, '>', t);
                        }
                        let cls = spec_attr(c, t, te, " class=\""@, " class='"@);
                        let is_award = match cls {
                            Some(cl) => contains_seq(cl, "lcp_catlist"@),
                            None => false,
                        };
                        if is_award {
                            let iend = spec_element_end(c, te + 1, "<ul"@, "</ul"@, 0);
                            if te + 1 <= iend {
                                Some((te + 1, iend))
                            } else {
                                None
                            }
                        } else {
                            spec_award_ul_span(c, te + 1, lim)
                        }
                    },
                }
            },
        }
    }
}

/// The first anchor of the list item `[a, b)`: its target and its visible
/// text, trimmed.
pub open spec fn spec_li_entry(c: Seq<char>, a: int, b: int) -> Option<(Seq<char>, Seq<char>)> {
    match spec_find_tag(c, "<a"@, a) {
        None => None,
        Some(t) => if t >= b {
            None
        } else {
            match spec_find_char(c, '>', t) {
                None => None,
                Some(ate) => {
                    let url = match spec_attr(c, t, ate, " href=\""@, " href='"@) {
                        Some(u) => u,
                        None => Seq::empty(),
                    };
                    let aclose = match spec_find_tag(c, "</a"@, ate) {
                        Some(x) => x,
                        None => b,
                    };
                    if ate + 1 <= aclose {
                        Some((url, trim(strip_markup(c.subrange(ate + 1, aclose)))))
                    } else {
                        None
                    }
                },
            }
        },
    }
}

/// The award entries of `[p, lim)`: each list item's first link, skipping
/// items without a target or a title.
pub open spec fn spec_award_entries(c: Seq<char>, p: int, lim: int) -> Seq<(Seq<char>, Seq<char>)>
    decreases c.len() - p + 1,
{
    if p < 0 {
        Seq::empty()
    } else {
        match spec_find_tag(c, "<li"@, p) {
            None => Seq::empty(),
            Some(t) => if t >= lim {
                Seq::empty()
            } else {
                proof {
                    lemma_spec_find_tag(c, "<li"@, p);
                }
                match spec_find_char(c, '>', t) {
                    None => Seq::empty(),
                    Some(te) => {
                        proof {
                            lemma_spec_find_char(c, '>', t);
                        }
                        let iend = spec_element_end(c, te + 1, "<li"@, "</li"@, 0);
                        proof {
                            lemma_spec_element_end(c, te + 1, "<li"@, "</li"@, 0);
                        }
                        let rest = if iend > te {
                            spec_award_entries(c, iend, lim)
                        } else {
                            Seq::empty()
                        };
                        match spec_li_entry(c, te + 1, iend) {
                            Some(e) => if e.0.len() > 0 && e.1.len() > 0 {
                                seq![e] + rest
                            } else {
                                rest
                            },
                            None => rest,
                        }
                    },
                }
            },
        }
    }
}

/// Award entries agree with their specification: the fields match and no
/// entry carries an image.
pub open spec fn award_entries_agree(
    v: Seq<PopularRepackEntry>,
    sp: Seq<(Seq<char>, Seq<char>)>,
) -> bool {
    &&& v.len() == sp.len()
    &&& forall|i: int|
        0 <= i < v.len() ==> {
            &&& (#[trigger] v[i]).url@ == sp[i].0
            &&& v[i].title@ == sp[i].1
            &&& v[i].image_url is None
        }
}

/// The first anchor of the list item `[a, b)`, executably.
fn li_entry(c: &Vec<char>, a: usize, b: usize) -> (r: Option<(String, String)>)
    requires
        a <= b <= c@.len(),
    ensures
        match r {
            Some(e) => spec_li_entry(c@, a as int, b as int) matches Some(sp) && e.0@ == sp.0
                && e.1@ == sp.1,
            None => spec_li_entry(c@, a as int, b as int) is None,
        },
{
    let n = c.len();
    let t = match find_tag(c, "<a", a) {
        Some(t) => t,
        None => {
            return None;
        },
    };
    if t >= b {
        return None;
    }
    let ate = match find_char_from(c, '>', t) {
        Some(x) => x,
        None => {
            return None;
        },
    };
    let url = match attr_value(c, t, ate, " href=\"", " href='") {
        Some(u) => string_from_chars(&u),
        None => String::new(),
    };
    let aclose = match find_tag(c, "</a", ate) {
        Some(x) => x,
        None => b,
    };
    if ate + 1 <= aclose {
        let txt = inner_text(c, ate + 1, aclose);
        let ta = trim_leading_e(&txt);
        let tb = trim_trailing_e(&ta);
        Some((url, string_from_chars(&tb)))
    } else {
        None
    }
}

/// The award entries of `[p, lim)`, executably.
#[verifier::loop_isolation(false)]
fn award_entries(c: &Vec<char>, p: usize, lim: usize) -> (r: Vec<PopularRepackEntry>)
    requires
        lim <= c@.len(),
    ensures
        award_entries_agree(r@, spec_award_entries(c@, p as int, lim as int)),
{
    let n = c.len();
    let ghost target = spec_award_entries(c@, p as int, lim as int);
    let mut out: Vec<PopularRepackEntry> = Vec::new();
    let mut q = p;
    loop
        invariant
            out@.len() <= target.len(),
            target =~= spec_award_entries(c@, p as int, lim as int),
            target.skip(out@.len() as int) =~= spec_award_entries(c@, q as int, lim as int),
            forall|i: int|
                0 <= i < out@.len() ==> {
                    &&& (#[trigger] out@[i]).url@ == target[i].0
                    &&& out@[i].title@ == target[i].1
                    &&& out@[i].image_url is None
                },
        decreases c@.len() + 1 - q,
    {
        let t = match find_tag(c, "<li", q) {
            Some(t) => t,
            None => {
                proof {
                    assert(target.skip(out@.len() as int).len() == 0);
                }
                return out;
            },
        };
        if t >= lim {
            proof {
                assert(target.skip(out@.len() as int).len() == 0);
            }
            return out;
        }
        let te = match find_char_from(c, '>', t) {
            Some(te) => te,
            None => {
                proof {
                    assert(target.skip(out@.len() as int).len() == 0);
                }
                return out;
            },
        };
        proof {
            reveal_strlit("<li");
            reveal_strlit("</li");
        }
        let iend = element_end(c, te + 1, "<li", "</li");
        proof {
            lemma_spec_element_end(c@, te + 1, "<li"@, "</li"@, 0);
        }
        let ghost sp_entry = spec_li_entry(c@, te + 1, iend as int);
        match li_entry(c, te + 1, iend) {
            Some(e) => {
                if e.0.unicode_len() > 0 && e.1.unicode_len() > 0 {
                    let ghost n0 = out@.len() as int;
                    proof {
                        assert(target.skip(n0)[0] == sp_entry.unwrap());
                    }
                    out.push(PopularRepackEntry { url: e.0, title: e.1, image_url: None });
                    proof {
                        assert(out@[n0].url@ == target[n0].0);
                        assert(out@[n0].title@ == target[n0].1);
                        assert(target.skip(n0).drop_first() =~= target.skip(n0 + 1));
                    }
                }
            },
            None => {},
        }
        if iend > te {
            q = iend;
        } else {
            proof {
                assert(target.skip(out@.len() as int).len() == 0);
            }
            return out;
        }
    }
}

/// Whether the widget span `[a, b)` holds a heading of the wanted section.
pub open spec fn spec_widget_has_title(c: Seq<char>, a: int, b: int, title: Seq<char>) -> bool
    decreases c.len() - a + 1,
{
    if a < 0 {
        false
    } else {
        match spec_find_tag(c, "<h2"@, a) {
            None => false,
            Some(t) => if t >= b {
                false
            } else {
                proof {
                    lemma_spec_find_tag(c, "<h2"@, a);
                }
                match spec_find_char(c, '>', t) {
                    None => false,
                    Some(te) => {
                        proof {
                            lemma_spec_find_char(c, '>', t);
                        }
                        let cls = spec_attr(c, t, te, " class=\""@, " class='"@);
                        let is_title = match cls {
                            Some(cl) => contains_seq(cl, "widgettitle"@),
                            None => false,
                        };
                        let hclose = match spec_find_tag(c, "</h2"@, te) {
                            Some(x) => x,
                            None => b,
                        };
                        if is_title && te + 1 <= hclose && contains_seq(
                            strip_markup(c.subrange(te + 1, hclose)),
                            title,
                        ) {
                            true
                        } else {
                            spec_widget_has_title(c, te + 1, b, title)
                        }
                    },
                }
            },
        }
    }
}

/// The entries of the first sidebar widget whose heading holds `title`.
pub open spec fn spec_sidebar_entries(c: Seq<char>, p: int, title: Seq<char>) -> Seq<
    (Seq<char>, Seq<char>, Option<Seq<char>>),
>
    decreases c.len() - p + 1,
{
    if p < 0 {
        Seq::empty()
    } else {
        match spec_find_tag(c, "<div"@, p) {
            None => Seq::empty(),
            Some(t) => {
                proof {
                    lemma_spec_find_tag(c, "<div"@, p);
                }
                match spec_find_char(c, '>', t) {
                    None => Seq::empty(),
                    Some(te) => {
                        proof {
                            lemma_spec_find_char(c, '>', t);
                        }
                        let cls = spec_attr(c, t, te, " class=\""@, " class='"@);
                        let is_widget = match cls {
                            Some(cl) => contains_seq(cl, "jetpack_top_posts_widget"@),
                            None => false,
                        };
                        if is_widget {
                            let wend = spec_element_end(c, te + 1, "<div"@, "</div"@, 0);
                            if te + 1 <= wend && spec_widget_has_title(c, te + 1, wend, title) {
                                spec_grid_entries(c, te + 1, wend)
                            } else {
                                spec_sidebar_entries(c, te + 1, title)
                            }
                        } else {
                            spec_sidebar_entries(c, te + 1, title)
                        }
                    },
                }
            },
        }
    }
}

/// Whether the widget span `[a, b)` holds a heading of the wanted
/// section, executably.
fn widget_has_title(c: &Vec<char>, a: usize, b: usize, title: &str) -> (r: bool)
    requires
        b <= c@.len(),
    ensures
        r == spec_widget_has_title(c@, a as int, b as int, title@),
    decreases c@.len() + 1 - a,
{
    let n = c.len();
    let t = match find_tag(c, "<h2", a) {
        Some(t) => t,
        None => {
            return false;
        },
    };
    if t >= b {
        return false;
    }
    let te = match find_char_from(c, '>', t) {
        Some(te) => te,
        None => {
            return false;
        },
    };
    let cls = attr_value(c, t, te, " class=\"", " class='");
    let is_title = match &cls {
        Some(cl) => contains_str(cl, "widgettitle"),
        None => false,
    };
    let hclose = match find_tag(c, "</h2", te) {
        Some(x) => x,
        None => b,
    };
    if is_title && te + 1 <= hclose {
        let txt = inner_text(c, te + 1, hclose);
        if contains_str(&txt, title) {
            return true;
        }
    }
    widget_has_title(c, te + 1, b, title)
}

impl PopularRepacks {
    /// Parses the curated award page: each list item's first link, in page
    /// order, with no images. Fails exactly when the page has no content
    /// region or no award list.
    pub fn parse_pink_paw_award_html(html: &str) -> (r: Result<Vec<PopularRepackEntry>, ParseError>)
        ensures
            match spec_content_span(html@) {
                None => r == Err::<Vec<PopularRepackEntry>, ParseError>(ParseError::NoContentRegion),
                Some(cs) => match spec_award_ul_span(html@, cs.0, cs.1) {
                    None => r == Err::<Vec<PopularRepackEntry>, ParseError>(ParseError::NoAwardList),
                    Some(us) => r matches Ok(v) && award_entries_agree(
                        v@,
                        spec_award_entries(html@, us.0, us.1),
                    ),
                },
            },
    {
        let c = chars_of(html);
        let ar = match find_tag(&c, "<article", 0) {
            Some(ar) => ar,
            None => {
                return Err(ParseError::NoContentRegion);
            },
        };
        let span = match content_span_from(&c, ar) {
            Some(span) => span,
            None => {
                return Err(ParseError::NoContentRegion);
            },
        };
        let us = match Self::award_ul_span(&c, span.0, span.1) {
            Some(us) => us,
            None => {
                return Err(ParseError::NoAwardList);
            },
        };
        Ok(award_entries(&c, us.0, us.1))
    }

    /// The span of the award list inside `[p, lim)`, executably.
    #[verifier::loop_isolation(false)]
    fn award_ul_span(c: &Vec<char>, p: usize, lim: usize) -> (r: Option<(usize, usize)>)
        requires
            lim <= c@.len(),
        ensures
            match r {
                Some(us) => spec_award_ul_span(c@, p as int, lim as int) == Some(
                    (us.0 as int, us.1 as int),
                ) && us.0 <= us.1 <= c@.len(),
                None => spec_award_ul_span(c@, p as int, lim as int) is None,
            },
    {
        let n = c.len();
        let mut q = p;
        loop
            invariant
                spec_award_ul_span(c@, p as int, lim as int) == spec_award_ul_span(
                    c@,
                    q as int,
                    lim as int,
                ),
            decreases c@.len() + 1 - q,
        {
            let t = match find_tag(c, "<ul", q) {
                Some(t) => t,
                None => {
                    return None;
                },
            };
            if t >= lim {
                return None;
            }
            let te = match find_char_from(c, '>', t) {
                Some(te) => te,
                None => {
                    return None;
                },
            };
            let cls = attr_value(c, t, te, " class=\"", " class='");
            let is_award = match &cls {
                Some(cl) => contains_str(cl, "lcp_catlist"),
                None => false,
            };
            if is_award {
                proof {
                    reveal_strlit("<ul");
                    reveal_strlit("</ul");
                }
                let iend = element_end(c, te + 1, "<ul", "</ul");
                if te + 1 <= iend {
                    return Some((te + 1, iend));
                }
                return None;
            }
            q = te + 1;
        }
    }

    /// Parses a named sidebar section: the grid entries of the first
    /// sidebar widget whose heading holds `section_title`. Fails exactly
    /// when no such widget yields any entry.
    #[verifier::loop_isolation(false)]
    pub fn parse_sidebar_popular_repacks(html: &str, section_title: &str) -> (r: Result<
        Vec<PopularRepackEntry>,
        ParseError,
    >)
        ensures
            spec_sidebar_entries(html@, 0, section_title@).len() == 0 ==> r == Err::<
                Vec<PopularRepackEntry>,
                ParseError,
            >(ParseError::EmptySidebarSection),
            spec_sidebar_entries(html@, 0, section_title@).len() > 0 ==> (r matches Ok(v)
                && entries_agree(v@, spec_sidebar_entries(html@, 0, section_title@))),
    {
        let c = chars_of(html);
        let n = c.len();
        let mut q: usize = 0;
        loop
            invariant
                c@ == html@,
                spec_sidebar_entries(html@, 0, section_title@) =~= spec_sidebar_entries(
                    c@,
                    q as int,
                    section_title@,
                ),
            decreases c@.len() + 1 - q,
        {
            let t = match find_tag(&c, "<div", q) {
                Some(t) => t,
                None => {
                    return Err(ParseError::EmptySidebarSection);
                },
            };
            let te = match find_char_from(&c, '>', t) {
                Some(te) => te,
                None => {
                    return Err(ParseError::EmptySidebarSection);
                },
            };
            let cls = attr_value(&c, t, te, " class=\"", " class='");
            let is_widget = match &cls {
                Some(cl) => contains_str(cl, "jetpack_top_posts_widget"),
                None => false,
            };
            if is_widget {
                proof {
                    reveal_strlit("<div");
                    reveal_strlit("</div");
                }
                let wend = element_end(&c, te + 1, "<div", "</div");
                proof {
                    lemma_spec_element_end(c@, te + 1, "<div"@, "</div"@, 0);
                }
                if te + 1 <= wend && widget_has_title(&c, te + 1, wend, section_title) {
                    let v = grid_entries(&c, te + 1, wend);
                    if v.len() == 0 {
                        return Err(ParseError::EmptySidebarSection);
                    }
                    return Ok(v);
                }
            }
            q = te + 1;
        }
    }

    /// Parses the weekly sidebar section.
    pub fn parse_week_popular_repacks(html: &str) -> (r: Result<Vec<PopularRepackEntry>, ParseError>)
        ensures
            spec_sidebar_entries(html@, 0, "Most Popular Repacks of the Week"@).len() == 0 ==> r
                == Err::<Vec<PopularRepackEntry>, ParseError>(ParseError::EmptySidebarSection),
            spec_sidebar_entries(html@, 0, "Most Popular Repacks of the Week"@).len() > 0 ==> (r
                matches Ok(v) && entries_agree(
                v@,
                spec_sidebar_entries(html@, 0, "Most Popular Repacks of the Week"@),
            )),
    {
        Self::parse_sidebar_popular_repacks(html, "Most Popular Repacks of the Week")
    }

    /// Parses the daily sidebar section.
    pub fn parse_today_popular_repacks(html: &str) -> (r: Result<
        Vec<PopularRepackEntry>,
        ParseError,
    >)
        ensures
            spec_sidebar_entries(html@, 0, "Today"@).len() == 0 ==> r == Err::<
                Vec<PopularRepackEntry>,
                ParseError,
            >(ParseError::EmptySidebarSection),
            spec_sidebar_entries(html@, 0, "Today"@).len() > 0 ==> (r matches Ok(v)
                && entries_agree(v@, spec_sidebar_entries(html@, 0, "Today"@))),
    {
        Self::parse_sidebar_popular_repacks(html, "Today")
    }
}

} // verus!

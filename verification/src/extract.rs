//! Field extraction from a release page's content region: the labelled
//! info block, the cover image, magnet links with their source labels, the
//! screenshot-gallery link and the video links.

use vstd::prelude::*;
use crate::blacklist::lower_of;
use crate::html::inner_text;
use crate::html::lemma_spec_find_tag;
use crate::html::spec_attr;
use crate::html::spec_find_tag;
use crate::html::strip_markup;
use crate::html::attr_value;
use crate::html::find_tag;
use crate::models::GameDetails;
use crate::models::MagnetLink;
use crate::models::opt_str_agrees;
use crate::sizes::trim;
use crate::text::contains_seq;
use crate::text::find_char_from;
use crate::text::find_from;
use crate::text::lemma_spec_find_char;
use crate::text::lemma_spec_find_some;
use crate::text::matches_at;
use crate::text::spec_find;
use crate::text::spec_find_char;
use crate::text::string_from_chars;
use crate::text::sub_vec;
use crate::text::trim_leading_e;
use crate::text::trim_trailing_e;
use crate::text::vec_eq_str;

verus! {

/// The text of the info block: everything between the first level-3
/// heading of the content region and the next one (or the end), with
/// markup stripped.
pub open spec fn spec_info_block(c: Seq<char>) -> Option<Seq<char>> {
    match spec_find_tag(c, "<h3"@, 0) {
        None => None,
        Some(h) => match spec_find_tag(c, "</h3"@, h) {
            None => None,
            Some(ce) => match spec_find_char(c, '>', ce) {
                None => None,
                Some(g) => {
                    let bs = g + 1;
                    let be = match spec_find_tag(c, "<h3"@, bs) {
                        Some(n) => n,
                        None => c.len() as int,
                    };
                    if bs <= be {
                        Some(strip_markup(c.subrange(bs, be)))
                    } else {
                        None
                    }
                },
            },
        },
    }
}

/// The value of `label` in block text `t`: the text after the label's
/// first occurrence, up to the first of `end1`, then `end2`, then `cap`
/// characters or the end of the block, trimmed.
pub open spec fn spec_field(
    t: Seq<char>,
    label: Seq<char>,
    end1: Seq<char>,
    end2: Option<Seq<char>>,
    cap: Option<int>,
) -> Option<Seq<char>> {
    match spec_find(t, label, 0) {
        Some(g) => {
            let after = t.skip(g + label.len());
            let dflt: int = match cap {
                Some(cv) => if after.len() <= cv {
                    after.len() as int
                } else {
                    cv
                },
                None => after.len() as int,
            };
            let end: int = match spec_find(after, end1, 0) {
                Some(e) => e,
                None => match end2 {
                    Some(e2) => match spec_find(after, e2, 0) {
                        Some(e) => e,
                        None => dflt,
                    },
                    None => dflt,
                },
            };
            Some(trim(after.subrange(0, end)))
        },
        None => None,
    }
}

/// Genres of block text `t`.
pub open spec fn spec_genres(t: Seq<char>) -> Option<Seq<char>> {
    spec_field(t, "Genres/Tags:"@, "Companies:"@, Some("Company:"@), None)
}

/// Company of block text `t`: the plural label wins over the singular.
pub open spec fn spec_company(t: Seq<char>) -> Option<Seq<char>> {
    if spec_find(t, "Companies:"@, 0) is Some {
        spec_field(t, "Companies:"@, "Languages:"@, Some("Language:"@), None)
    } else {
        spec_field(t, "Company:"@, "Languages:"@, Some("Language:"@), None)
    }
}

/// Languages of block text `t`.
pub open spec fn spec_languages(t: Seq<char>) -> Option<Seq<char>> {
    if spec_find(t, "Languages:"@, 0) is Some {
        spec_field(t, "Languages:"@, "Original Size:"@, Some("This game"@), None)
    } else {
        spec_field(t, "Language:"@, "Original Size:"@, Some("This game"@), None)
    }
}

/// Original size of block text `t`, capped at a hundred characters.
pub open spec fn spec_original_size(t: Seq<char>) -> Option<Seq<char>> {
    spec_field(t, "Original Size:"@, "Repack Size:"@, None, Some(100))
}

/// Repack size of block text `t`, capped at a hundred characters.
pub open spec fn spec_repack_size(t: Seq<char>) -> Option<Seq<char>> {
    spec_field(t, "Repack Size:"@, "Download"@, None, Some(100))
}

/// A field of the details of content region `c`, through the info block.
pub open spec fn detail_of(c: Seq<char>, which: int) -> Option<Seq<char>> {
    match spec_info_block(c) {
        None => None,
        Some(t) => if which == 0 {
            spec_genres(t)
        } else if which == 1 {
            spec_company(t)
        } else if which == 2 {
            spec_languages(t)
        } else if which == 3 {
            spec_original_size(t)
        } else {
            spec_repack_size(t)
        },
    }
}

/// Reads a labelled field out of block text `t`, executably.
fn field_value(t: &Vec<char>, label: &str, end1: &str, end2: Option<&str>, cap: Option<usize>) -> (r:
    Option<String>)
    ensures
        opt_str_agrees(
            r,
            spec_field(
                t@,
                label@,
                end1@,
                match end2 {
                    Some(e) => Some(e@),
                    None => None,
                },
                match cap {
                    Some(cv) => Some(cv as int),
                    None => None,
                },
            ),
        ),
{
    let g = match find_from(t, label, 0) {
        Some(g) => g,
        None => {
            return None;
        },
    };
    proof {
        lemma_spec_find_some(t@, label@, 0);
    }
    let n = t.len();
    let after = sub_vec(t, g + label.unicode_len(), n);
    proof {
        assert(after@ =~= t@.skip(g + label@.len()));
    }
    let dflt: usize = match cap {
        Some(cv) => if after.len() <= cv {
            after.len()
        } else {
            cv
        },
        None => after.len(),
    };
    let end: usize = match find_from(&after, end1, 0) {
        Some(e) => e,
        None => match end2 {
            Some(e2) => match find_from(&after, e2, 0) {
                Some(e) => e,
                None => dflt,
            },
            None => dflt,
        },
    };
    proof {
        lemma_spec_find_some(after@, end1@, 0);
        if let Some(e2) = end2 {
            lemma_spec_find_some(after@, e2@, 0);
        }
    }
    let raw = sub_vec(&after, 0, end);
    let ta = trim_leading_e(&raw);
    let tb = trim_trailing_e(&ta);
    Some(string_from_chars(&tb))
}

/// The field extractors of the release pages.
pub struct Extractors;

impl Extractors {
    /// Reads the labelled info block of a content region: genres, company,
    /// languages and the two sizes. A missing label leaves its field
    /// empty; extraction itself never fails.
    pub fn extract_game_details(content: &Vec<char>) -> (r: GameDetails)
        ensures
            opt_str_agrees(r.genres_tags, detail_of(content@, 0)),
            opt_str_agrees(r.company, detail_of(content@, 1)),
            opt_str_agrees(r.languages, detail_of(content@, 2)),
            opt_str_agrees(r.original_size, detail_of(content@, 3)),
            opt_str_agrees(r.repack_size, detail_of(content@, 4)),
    {
        let empty = GameDetails {
            genres_tags: None,
            company: None,
            languages: None,
            original_size: None,
            repack_size: None,
        };
        let h = match find_tag(content, "<h3", 0) {
            Some(h) => h,
            None => {
                return empty;
            },
        };
        let ce = match find_tag(content, "</h3", h) {
            Some(ce) => ce,
            None => {
                return empty;
            },
        };
        let g = match find_char_from(content, '>', ce) {
            Some(g) => g,
            None => {
                return empty;
            },
        };
        let n = content.len();
        let bs = g + 1;
        let be = match find_tag(content, "<h3", bs) {
            Some(n) => n,
            None => content.len(),
        };
        if bs > be {
            return empty;
        }
        let t = inner_text(content, bs, be);
        let genres_tags = field_value(&t, "Genres/Tags:", "Companies:", Some("Company:"), None);
        let company = if find_from(&t, "Companies:", 0).is_some() {
            field_value(&t, "Companies:", "Languages:", Some("Language:"), None)
        } else {
            field_value(&t, "Company:", "Languages:", Some("Language:"), None)
        };
        let languages = if find_from(&t, "Languages:", 0).is_some() {
            field_value(&t, "Languages:", "Original Size:", Some("This game"), None)
        } else {
            field_value(&t, "Language:", "Original Size:", Some("This game"), None)
        };
        let original_size = field_value(&t, "Original Size:", "Repack Size:", None, Some(100));
        let repack_size = field_value(&t, "Repack Size:", "Download", None, Some(100));
        GameDetails { genres_tags, company, languages, original_size, repack_size }
    }
}


/// The cover image of the content region from position `p` on: the first
/// image that is 150 pixels wide or left-aligned and has a source URL.
pub open spec fn spec_cover(c: Seq<char>, p: int) -> Option<Seq<char>>
    decreases c.len() - p + 1,
{
    if p < 0 {
        None
    } else {
        match spec_find_tag(c, "<img"@, p) {
            None => None,
            Some(t) => {
                proof {
                    lemma_spec_find_tag(c, "<img"@, p);
                }
                match spec_find_char(c, '>', t) {
                    None => None,
                    Some(te) => {
                        proof {
                            lemma_spec_find_char(c, '>', t);
                        }
                        let src = spec_attr(c, t, te, " src=\""@, " src='"@);
                        let width = spec_attr(c, t, te, " width=\""@, " width='"@);
                        let class = spec_attr(c, t, te, " class=\""@, " class='"@);
                        let is_cover = width == Some("150"@) || (match class {
                            Some(cl) => contains_seq(cl, "alignleft"@),
                            None => false,
                        });
                        let good = match src {
                            Some(u) => is_cover && u.len() > 0,
                            None => false,
                        };
                        if good {
                            src
                        } else {
                            spec_cover(c, te + 1)
                        }
                    },
                }
            },
        }
    }
}

/// The position of the last `pat` tag before `upto`, scanning from `from`.
pub open spec fn spec_last_tag_before(c: Seq<char>, pat: Seq<char>, from: int, upto: int) -> Option<
    int,
>
    decreases c.len() - from + 1,
{
    if from < 0 {
        None
    } else {
        match spec_find_tag(c, pat, from) {
            Some(i) => if i < upto {
                proof {
                    lemma_spec_find_tag(c, pat, from);
                }
                match spec_last_tag_before(c, pat, i + 1, upto) {
                    Some(j) => Some(j),
                    None => Some(i),
                }
            } else {
                None
            },
            None => None,
        }
    }
}

/// The source label of the magnet anchor at `t`: the text of the nearest
/// enclosing list item before the first `|` or `[`, trimmed, or `Unknown`
/// when no list item encloses the anchor.
pub open spec fn spec_li_source(c: Seq<char>, t: int) -> Seq<char> {
    match spec_last_tag_before(c, "<li"@, 0, t) {
        None => "Unknown"@,
        Some(lo) => match spec_find_char(c, '>', lo) {
            None => "Unknown"@,
            Some(lg) => {
                let close = match spec_find_tag(c, "</li"@, lo) {
                    Some(cl) => cl,
                    None => c.len() as int,
                };
                if close > t && lg + 1 <= close {
                    let text = strip_markup(c.subrange(lg + 1, close));
                    let s1 = match spec_find_char(text, '|', 0) {
                        Some(q) => text.subrange(0, q),
                        None => text,
                    };
                    let s2 = match spec_find_char(s1, '[', 0) {
                        Some(q) => s1.subrange(0, q),
                        None => s1,
                    };
                    trim(s2)
                } else {
                    "Unknown"@
                }
            },
        },
    }
}

/// The magnet links of the content region from `p` on, each with its
/// source label: every anchor whose target begins with `magnet:`.
pub open spec fn spec_magnets(c: Seq<char>, p: int) -> Seq<(Seq<char>, Seq<char>)>
    decreases c.len() - p + 1,
{
    if p < 0 {
        Seq::empty()
    } else {
        match spec_find_tag(c, "<a"@, p) {
            None => Seq::empty(),
            Some(t) => {
                proof {
                    lemma_spec_find_tag(c, "<a"@, p);
                }
                match spec_find_char(c, '>', t) {
                    None => Seq::empty(),
                    Some(te) => {
                        proof {
                            lemma_spec_find_char(c, '>', t);
                        }
                        let rest = spec_magnets(c, te + 1);
                        match spec_attr(c, t, te, " href=\""@, " href='"@) {
                            Some(h) => if matches_at(h, "magnet:"@, 0) {
                                seq![(spec_li_source(c, t), h)] + rest
                            } else {
                                rest
                            },
                            None => rest,
                        }
                    },
                }
            },
        }
    }
}

impl Extractors {
    /// The first cover-looking image of the content region: width 150 or a
    /// left-aligned class, with a nonempty source URL.
    #[verifier::loop_isolation(false)]
    pub fn extract_cover_image(content: &Vec<char>) -> (r: Option<String>)
        ensures
            opt_str_agrees(r, spec_cover(content@, 0)),
    {
        let n = content.len();
        let mut p: usize = 0;
        loop
            invariant
                spec_cover(content@, 0) == spec_cover(content@, p as int),
            decreases content@.len() + 1 - p,
        {
            let t = match find_tag(content, "<img", p) {
                Some(t) => t,
                None => {
                    return None;
                },
            };
            let te = match find_char_from(content, '>', t) {
                Some(te) => te,
                None => {
                    return None;
                },
            };
            let src = attr_value(content, t, te, " src=\"", " src='");
            let width = attr_value(content, t, te, " width=\"", " width='");
            let class = attr_value(content, t, te, " class=\"", " class='");
            let w_ok = match &width {
                Some(w) => vec_eq_str(w, "150"),
                None => false,
            };
            let c_ok = match &class {
                Some(cl) => crate::text::contains_str(cl, "alignleft"),
                None => false,
            };
            let is_cover = w_ok || c_ok;
            match &src {
                Some(u) => {
                    if is_cover && u.len() > 0 {
                        return Some(string_from_chars(u));
                    }
                },
                None => {},
            }
            p = te + 1;
        }
    }

    /// The last `<li` open before `upto`, scanning from `from`.
    fn last_li_before(content: &Vec<char>, from: usize, upto: usize) -> (r: Option<usize>)
        ensures
            match r {
                Some(l) => spec_last_tag_before(content@, "<li"@, from as int, upto as int) == Some(
                    l as int,
                ),
                None => spec_last_tag_before(content@, "<li"@, from as int, upto as int) is None,
            },
        decreases content@.len() + 1 - from,
    {
        let n = content.len();
        match find_tag(content, "<li", from) {
            Some(i) => {
                if i < upto {
                    match Self::last_li_before(content, i + 1, upto) {
                        Some(j) => Some(j),
                        None => Some(i),
                    }
                } else {
                    None
                }
            },
            None => None,
        }
    }

    /// The source label of the magnet anchor at `t`, executably.
    fn li_source(content: &Vec<char>, t: usize) -> (r: String)
        ensures
            r@ == spec_li_source(content@, t as int),
    {
        let n = content.len();
        let last = Self::last_li_before(content, 0, t);
        let lo = match last {
            Some(l) => l,
            None => {
                return "Unknown".to_owned();
            },
        };
        let lg = match find_char_from(content, '>', lo) {
            Some(lg) => lg,
            None => {
                return "Unknown".to_owned();
            },
        };
        let close = match find_tag(content, "</li", lo) {
            Some(cl) => cl,
            None => content.len(),
        };
        if close > t && lg + 1 <= close {
            let text = inner_text(content, lg + 1, close);
            let s1 = match find_char_from(&text, '|', 0) {
                Some(q) => sub_vec(&text, 0, q),
                None => {
                    proof {
                        assert(text@.subrange(0, text@.len() as int) =~= text@);
                    }
                    sub_vec(&text, 0, text.len())
                },
            };
            let s2 = match find_char_from(&s1, '[', 0) {
                Some(q) => sub_vec(&s1, 0, q),
                None => {
                    proof {
                        assert(s1@.subrange(0, s1@.len() as int) =~= s1@);
                    }
                    sub_vec(&s1, 0, s1.len())
                },
            };
            let ta = trim_leading_e(&s2);
            let tb = trim_trailing_e(&ta);
            string_from_chars(&tb)
        } else {
            "Unknown".to_owned()
        }
    }

    /// Every magnet anchor of the content region, each labelled by its
    /// nearest enclosing list item.
    #[verifier::loop_isolation(false)]
    pub fn extract_magnet_links(content: &Vec<char>) -> (r: Vec<MagnetLink>)
        ensures
            r@.len() == spec_magnets(content@, 0).len(),
            forall|i: int|
                0 <= i < r@.len() ==> (#[trigger] r@[i]).source@ == spec_magnets(content@, 0)[i].0
                    && r@[i].magnet@ == spec_magnets(content@, 0)[i].1,
    {
        let n = content.len();
        let mut out: Vec<MagnetLink> = Vec::new();
        let ghost target = spec_magnets(content@, 0);
        let mut p: usize = 0;
        loop
            invariant
                out@.len() <= target.len(),
                target =~= spec_magnets(content@, 0),
                target.skip(out@.len() as int) =~= spec_magnets(content@, p as int),
                forall|i: int|
                    0 <= i < out@.len() ==> (#[trigger] out@[i]).source@ == target[i].0
                        && out@[i].magnet@ == target[i].1,
            decreases content@.len() + 1 - p,
        {
            let t = match find_tag(content, "<a", p) {
                Some(t) => t,
                None => {
                    proof {
                        assert(target.skip(out@.len() as int).len() == 0);
                    }
                    return out;
                },
            };
            let te = match find_char_from(content, '>', t) {
                Some(te) => te,
                None => {
                    proof {
                        assert(target.skip(out@.len() as int).len() == 0);
                    }
                    return out;
                },
            };
            let href = attr_value(content, t, te, " href=\"", " href='");
            match &href {
                Some(h) => {
                    if crate::text::eq_at(h, "magnet:", 0) {
                        let source = Self::li_source(content, t);
                        let magnet = string_from_chars(h);
                        let ghost n0 = out@.len() as int;
                        out.push(MagnetLink { source, magnet });
                        proof {
                            assert(target.skip(n0)[0] == (spec_li_source(content@, t as int),
                            h@));
                            assert(target.skip(n0).drop_first() =~= target.skip(n0 + 1));
                        }
                    }
                },
                None => {},
            }
            p = te + 1;
        }
    }
}


/// Position just after the screenshots heading: the first level-3 heading
/// whose text holds both `Screenshots` and `Click to enlarge`, scanning
/// from `p`.
pub open spec fn spec_shot_heading_end(c: Seq<char>, p: int) -> Option<int>
    decreases c.len() - p + 1,
{
    if p < 0 {
        None
    } else {
        match spec_find_tag(c, "<h3"@, p) {
            None => None,
            Some(h) => {
                proof {
                    lemma_spec_find_tag(c, "<h3"@, p);
                }
                match spec_find_char(c, '>', h) {
                    None => None,
                    Some(hg) => match spec_find_tag(c, "</h3"@, hg) {
                        None => None,
                        Some(hc) => {
                            let ok = hg + 1 <= hc && contains_seq(
                                strip_markup(c.subrange(hg + 1, hc)),
                                "Screenshots"@,
                            ) && contains_seq(
                                strip_markup(c.subrange(hg + 1, hc)),
                                "Click to enlarge"@,
                            );
                            if ok {
                                match spec_find_char(c, '>', hc) {
                                    None => None,
                                    Some(pe) => Some(pe + 1),
                                }
                            } else {
                                spec_shot_heading_end(c, h + 1)
                            }
                        },
                    },
                }
            },
        }
    }
}

/// The span of the first paragraph after the screenshots heading.
pub open spec fn spec_shots_p(c: Seq<char>) -> Option<(int, int)> {
    match spec_shot_heading_end(c, 0) {
        None => None,
        Some(hp) => match spec_find_tag(c, "<p"@, hp) {
            None => None,
            Some(pt) => match spec_find_char(c, '>', pt) {
                None => None,
                Some(pg) => {
                    let pend = match spec_find_tag(c, "</p"@, pg) {
                        Some(x) => x,
                        None => c.len() as int,
                    };
                    if pg + 1 <= pend {
                        Some((pg + 1, pend))
                    } else {
                        None
                    }
                },
            },
        },
    }
}

/// The gallery link inside `[p, lim)`: the first anchor whose target names
/// the gallery host's screenshots path.
pub open spec fn spec_riot_url_in(c: Seq<char>, p: int, lim: int) -> Option<Seq<char>>
    decreases c.len() - p + 1,
{
    if p < 0 {
        None
    } else {
        match spec_find_tag(c, "<a"@, p) {
            None => None,
            Some(t) => if t >= lim {
                None
            } else {
                proof {
                    lemma_spec_find_tag(c, "<a"@, p);
                }
                match spec_find_char(c, '>', t) {
                    None => None,
                    Some(te) => {
                        proof {
                            lemma_spec_find_char(c, '>', t);
                        }
                        match spec_attr(c, t, te, " href=\""@, " href='"@) {
                            Some(h) => if contains_seq(h, "riotpixels.com"@) && contains_seq(
                                h,
                                "/screenshots/"@,
                            ) {
                                Some(h)
                            } else {
                                spec_riot_url_in(c, te + 1, lim)
                            },
                            None => spec_riot_url_in(c, te + 1, lim),
                        }
                    },
                }
            },
        }
    }
}

/// The raw screenshot-gallery URL of a content region.
pub open spec fn spec_riot_url(c: Seq<char>) -> Option<Seq<char>> {
    match spec_shots_p(c) {
        None => None,
        Some(span) => spec_riot_url_in(c, span.0, span.1),
    }
}

/// A link target that names a known video or animated-image host or file
/// extension, judged on its lowercase form.
pub open spec fn is_video_href(h: Seq<char>) -> bool {
    let l = lower_of(h);
    ||| contains_seq(l, "youtube.com"@)
    ||| contains_seq(l, "youtu.be"@)
    ||| contains_seq(l, "streamable.com"@)
    ||| contains_seq(l, "vimeo.com"@)
    ||| contains_seq(l, "gfycat.com"@)
    ||| contains_seq(l, "imgur.com/"@)
    ||| crate::text::ends_seq(l, ".gif"@)
    ||| crate::text::ends_seq(l, ".gifv"@)
    ||| crate::text::ends_seq(l, ".mp4"@)
    ||| crate::text::ends_seq(l, ".webm"@)
    ||| contains_seq(l, ".gif?"@)
    ||| contains_seq(l, ".mp4?"@)
    ||| contains_seq(l, ".webm?"@)
}

/// The video links inside `[p, lim)`: anchors that are not gallery links
/// and look like video or animated-image targets.
pub open spec fn spec_videos_in(c: Seq<char>, p: int, lim: int) -> Seq<Seq<char>>
    decreases c.len() - p + 1,
{
    if p < 0 {
        Seq::empty()
    } else {
        match spec_find_tag(c, "<a"@, p) {
            None => Seq::empty(),
            Some(t) => if t >= lim {
                Seq::empty()
            } else {
                proof {
                    lemma_spec_find_tag(c, "<a"@, p);
                }
                match spec_find_char(c, '>', t) {
                    None => Seq::empty(),
                    Some(te) => {
                        proof {
                            lemma_spec_find_char(c, '>', t);
                        }
                        let rest = spec_videos_in(c, te + 1, lim);
                        match spec_attr(c, t, te, " href=\""@, " href='"@) {
                            Some(h) => if !contains_seq(h, "riotpixels.com"@) && is_video_href(h) {
                                seq![h] + rest
                            } else {
                                rest
                            },
                            None => rest,
                        }
                    },
                }
            },
        }
    }
}

/// The video links of a content region.
pub open spec fn spec_videos(c: Seq<char>) -> Seq<Seq<char>> {
    match spec_shots_p(c) {
        None => Seq::empty(),
        Some(span) => spec_videos_in(c, span.0, span.1),
    }
}

fn is_video_href_e(h: &Vec<char>) -> (r: bool)
    ensures
        r == is_video_href(h@),
{
    let hs = string_from_chars(h);
    let low = crate::blacklist::lowercase(hs.as_str());
    let l = crate::text::chars_of(low.as_str());
    crate::text::contains_str(&l, "youtube.com") || crate::text::contains_str(&l, "youtu.be")
        || crate::text::contains_str(&l, "streamable.com") || crate::text::contains_str(
        &l,
        "vimeo.com",
    ) || crate::text::contains_str(&l, "gfycat.com") || crate::text::contains_str(&l, "imgur.com/")
        || crate::text::ends_with_str(&l, ".gif") || crate::text::ends_with_str(&l, ".gifv")
        || crate::text::ends_with_str(&l, ".mp4") || crate::text::ends_with_str(&l, ".webm")
        || crate::text::contains_str(&l, ".gif?") || crate::text::contains_str(&l, ".mp4?")
        || crate::text::contains_str(&l, ".webm?")
}

impl Extractors {
    /// Position just after the screenshots heading, executably.
    fn shot_heading_end(content: &Vec<char>, p: usize) -> (r: Option<usize>)
        ensures
            match r {
                Some(hp) => spec_shot_heading_end(content@, p as int) == Some(hp as int),
                None => spec_shot_heading_end(content@, p as int) is None,
            },
        decreases content@.len() + 1 - p,
    {
        let n = content.len();
        let h = match find_tag(content, "<h3", p) {
            Some(h) => h,
            None => {
                return None;
            },
        };
        let hg = match find_char_from(content, '>', h) {
            Some(hg) => hg,
            None => {
                return None;
            },
        };
        let hc = match find_tag(content, "</h3", hg) {
            Some(hc) => hc,
            None => {
                return None;
            },
        };
        if hg + 1 <= hc {
            let txt = inner_text(content, hg + 1, hc);
            if crate::text::contains_str(&txt, "Screenshots") && crate::text::contains_str(
                &txt,
                "Click to enlarge",
            ) {
                return match find_char_from(content, '>', hc) {
                    Some(pe) => Some(pe + 1),
                    None => None,
                };
            }
        }
        Self::shot_heading_end(content, h + 1)
    }

    /// The paragraph span that follows the screenshots heading, executably.
    fn shots_p_span(content: &Vec<char>) -> (r: Option<(usize, usize)>)
        ensures
            match r {
                Some(span) => spec_shots_p(content@) == Some((span.0 as int, span.1 as int))
                    && span.0 <= span.1 <= content@.len(),
                None => spec_shots_p(content@) is None,
            },
    {
        let hp = match Self::shot_heading_end(content, 0) {
            Some(hp) => hp,
            None => {
                return None;
            },
        };
        let n = content.len();
        let pt = match find_tag(content, "<p", hp) {
            Some(pt) => pt,
            None => {
                return None;
            },
        };
        let pg = match find_char_from(content, '>', pt) {
            Some(pg) => pg,
            None => {
                return None;
            },
        };
        let pend = match find_tag(content, "</p", pg) {
            Some(x) => x,
            None => content.len(),
        };
        if pg + 1 <= pend {
            Some((pg + 1, pend))
        } else {
            None
        }
    }

    /// The raw screenshot-gallery URL of a content region: the first
    /// anchor of the paragraph after the screenshots heading that points
    /// at the gallery host's screenshots path.
    #[verifier::loop_isolation(false)]
    pub fn extract_riotpixels_screenshot_url(content: &Vec<char>) -> (r: Option<String>)
        ensures
            opt_str_agrees(r, spec_riot_url(content@)),
    {
        let span = match Self::shots_p_span(content) {
            Some(span) => span,
            None => {
                return None;
            },
        };
        let n = content.len();
        let lim = span.1;
        let mut p: usize = span.0;
        loop
            invariant
                spec_riot_url(content@) == spec_riot_url_in(content@, p as int, lim as int),
            decreases content@.len() + 1 - p,
        {
            let t = match find_tag(content, "<a", p) {
                Some(t) => t,
                None => {
                    return None;
                },
            };
            if t >= lim {
                return None;
            }
            let te = match find_char_from(content, '>', t) {
                Some(te) => te,
                None => {
                    return None;
                },
            };
            let href = attr_value(content, t, te, " href=\"", " href='");
            match &href {
                Some(h) => {
                    if crate::text::contains_str(h, "riotpixels.com") && crate::text::contains_str(
                        h,
                        "/screenshots/",
                    ) {
                        return Some(string_from_chars(h));
                    }
                },
                None => {},
            }
            p = te + 1;
        }
    }

    /// The video links of a content region: every anchor of the paragraph
    /// after the screenshots heading that is not a gallery link and whose
    /// target names a known video host or file extension.
    #[verifier::loop_isolation(false)]
    pub fn extract_video_urls(content: &Vec<char>) -> (r: Vec<String>)
        ensures
            r@.len() == spec_videos(content@).len(),
            forall|i: int|
                0 <= i < r@.len() ==> (#[trigger] r@[i])@ == spec_videos(content@)[i],
    {
        let mut out: Vec<String> = Vec::new();
        let span = match Self::shots_p_span(content) {
            Some(span) => span,
            None => {
                return out;
            },
        };
        let ghost target = spec_videos(content@);
        let n = content.len();
        let lim = span.1;
        let mut p: usize = span.0;
        loop
            invariant
                out@.len() <= target.len(),
                target =~= spec_videos(content@),
                target.skip(out@.len() as int) =~= spec_videos_in(content@, p as int, lim as int),
                forall|i: int| 0 <= i < out@.len() ==> (#[trigger] out@[i])@ == target[i],
            decreases content@.len() + 1 - p,
        {
            let t = match find_tag(content, "<a", p) {
                Some(t) => t,
                None => {
                    proof {
                        assert(target.skip(out@.len() as int).len() == 0);
                    }
                    return out;
                },
            };
            if t >= lim {
                proof {
                    assert(target.skip(out@.len() as int).len() == 0);
                }
                return out;
            }
            let te = match find_char_from(content, '>', t) {
                Some(te) => te,
                None => {
                    proof {
                        assert(target.skip(out@.len() as int).len() == 0);
                    }
                    return out;
                },
            };
            let href = attr_value(content, t, te, " href=\"", " href='");
            match &href {
                Some(h) => {
                    if !crate::text::contains_str(h, "riotpixels.com") && is_video_href_e(h) {
                        let ghost n0 = out@.len() as int;
                        out.push(string_from_chars(h));
                        proof {
                            assert(target.skip(n0)[0] == h@);
                            assert(target.skip(n0).drop_first() =~= target.skip(n0 + 1));
                        }
                    }
                },
                None => {},
            }
            p = te + 1;
        }
    }
}


/// The page number named by a pagination link: the digits after `/page/`
/// up to the next slash, when they are one to nine digits.
pub open spec fn spec_page_num_of_href(h: Seq<char>) -> Option<int> {
    match spec_find(h, "/page/"@, 0) {
        None => None,
        Some(p) => {
            let st = p + 6;
            let en = match spec_find_char(h, '/', st) {
                Some(e) => e,
                None => h.len() as int,
            };
            let seg = h.subrange(st, en);
            if 1 <= seg.len() <= 9 && crate::sizes::all_digits(seg) {
                Some(crate::sizes::digits_val(seg) as int)
            } else {
                None
            }
        },
    }
}

/// The largest page number named by the pagination links from `p` on,
/// starting from `best`.
pub open spec fn spec_max_page(c: Seq<char>, p: int, best: int) -> int
    decreases c.len() - p + 1,
{
    if p < 0 {
        best
    } else {
        match spec_find_tag(c, "<a"@, p) {
            None => best,
            Some(t) => {
                proof {
                    lemma_spec_find_tag(c, "<a"@, p);
                }
                match spec_find_char(c, '>', t) {
                    None => best,
                    Some(te) => {
                        proof {
                            lemma_spec_find_char(c, '>', t);
                        }
                        let cls = spec_attr(c, t, te, " class=\""@, " class='"@);
                        let is_page = match cls {
                            Some(cl) => contains_seq(cl, "page-numbers"@),
                            None => false,
                        };
                        let here: int = if is_page {
                            match spec_attr(c, t, te, " href=\""@, " href='"@) {
                                Some(h) => match spec_page_num_of_href(h) {
                                    Some(n) => if n > best {
                                        n
                                    } else {
                                        best
                                    },
                                    None => best,
                                },
                                None => best,
                            }
                        } else {
                            best
                        };
                        spec_max_page(c, te + 1, here)
                    },
                }
            },
        }
    }
}

/// The page number of one pagination link, executably.
fn page_num_of_href(h: &Vec<char>) -> (r: Option<u32>)
    ensures
        match r {
            Some(n) => spec_page_num_of_href(h@) == Some(n as int),
            None => spec_page_num_of_href(h@) is None,
        },
{
    let p = match find_from(h, "/page/", 0) {
        Some(p) => p,
        None => {
            return None;
        },
    };
    proof {
        lemma_spec_find_some(h@, "/page/"@, 0);
        reveal_strlit("/page/");
    }
    let n = h.len();
    let st = p + 6;
    let en = match crate::text::find_char_from(h, '/', st) {
        Some(e) => e,
        None => h.len(),
    };
    if 1 <= en - st && en - st <= 9 && crate::sizes::range_all_digits(h, st, en) {
        proof {
            assert(h@.subrange(st as int, en as int).len() == en - st);
            crate::sizes::lemma_digits_val_bound(h@.subrange(st as int, en as int));
            crate::sizes::lemma_pow10_bounds();
            assert(crate::sizes::pow10(9) == 1000000000) by {
                reveal_with_fuel(crate::sizes::pow10, 10);
            }
            assert(crate::sizes::pow10((en - st) as nat) <= crate::sizes::pow10(9));
        }
        let v = match crate::sizes::digits_value_e(h, st, en, 9) {
            Some(v) => v,
            None => {
                return None;
            },
        };
        Some(v as u32)
    } else {
        None
    }
}

impl Extractors {
    /// The highest page number the pagination links name, when the page
    /// is paginated at all.
    #[verifier::loop_isolation(false)]
    pub fn extract_total_pages(document: &Vec<char>) -> (r: Option<u32>)
        ensures
            spec_max_page(document@, 0, 1) > 1 ==> r == Some(spec_max_page(document@, 0, 1) as u32),
            spec_max_page(document@, 0, 1) <= 1 ==> r is None,
    {
        let n = document.len();
        let mut best: u32 = 1;
        let mut p: usize = 0;
        loop
            invariant
                1 <= best,
                spec_max_page(document@, 0, 1) == spec_max_page(document@, p as int, best as int),
            decreases document@.len() + 1 - p,
        {
            let t = match find_tag(document, "<a", p) {
                Some(t) => t,
                None => {
                    break ;
                },
            };
            let te = match find_char_from(document, '>', t) {
                Some(te) => te,
                None => {
                    break ;
                },
            };
            let cls = attr_value(document, t, te, " class=\"", " class='");
            let is_page = match &cls {
                Some(cl) => crate::text::contains_str(cl, "page-numbers"),
                None => false,
            };
            if is_page {
                match &attr_value(document, t, te, " href=\"", " href='") {
                    Some(h) => match page_num_of_href(h) {
                        Some(num) => {
                            if num > best {
                                best = num;
                            }
                        },
                        None => {},
                    },
                    None => {},
                }
            }
            p = te + 1;
        }
        if best > 1 {
            Some(best)
        } else {
            None
        }
    }
}

} // verus!

//! The crawl controller's verified core: splitting a listing page into
//! article fragments, assembling one release record from a fragment,
//! filtering against the blacklist, the page cursor with its stop
//! conditions, and the incremental-update rule that stops at the first
//! page without new records.

use vstd::prelude::*;
use crate::blacklist::any_pattern_hits;
use crate::blacklist::default_blacklist;
use crate::blacklist::load_default_blacklist;
use crate::blacklist::lower_of;
use crate::extract::detail_of;
use crate::extract::spec_cover;
use crate::extract::spec_magnets;
use crate::extract::spec_riot_url;
use crate::extract::spec_videos;
use crate::extract::Extractors;
use crate::html::attr_value;
use crate::html::element_end;
use crate::html::find_tag;
use crate::html::inner_text;
use crate::html::lemma_spec_element_end;
use crate::html::lemma_spec_find_tag;
use crate::html::spec_attr;
use crate::html::spec_element_end;
use crate::html::spec_find_tag;
use crate::html::strip_markup;
use crate::models::GameRepack;
use crate::models::opt_str_agrees;
use crate::popular::content_span_from;
use crate::popular::spec_content_span_from;
use crate::sizes::trim;
use crate::text::chars_of;
use crate::text::contains_seq;
use crate::text::find_char_from;
use crate::text::lemma_spec_find_char;
use crate::text::spec_dec_str;
use crate::text::spec_find_char;
use crate::text::string_from_chars;
use crate::text::sub_vec;
use crate::text::trim_leading_e;
use crate::text::trim_trailing_e;
use crate::text::u64_to_dec_string;

verus! {

/// The span of the heading content of the first level-1 or level-2
/// heading after `p` whose class marks the entry title.
pub open spec fn spec_heading(c: Seq<char>, p: int) -> Option<(int, int)>
    decreases c.len() - p + 1,
{
    if p < 0 {
        None
    } else {
        let t1 = spec_find_tag(c, "<h1"@, p);
        let t2 = spec_find_tag(c, "<h2"@, p);
        let pick: Option<(int, bool)> = match (t1, t2) {
            (Some(a), Some(b)) => if a <= b {
                Some((a, true))
            } else {
                Some((b, false))
            },
            (Some(a), None) => Some((a, true)),
            (None, Some(b)) => Some((b, false)),
            (None, None) => None,
        };
        match pick {
            None => None,
            Some(pk) => {
                proof {
                    lemma_spec_find_tag(c, "<h1"@, p);
                    lemma_spec_find_tag(c, "<h2"@, p);
                }
                let t = pk.0;
                match spec_find_char(c, '>', t) {
                    None => None,
                    Some(te) => {
                        proof {
                            lemma_spec_find_char(c, '>', t);
                        }
                        let cls = spec_attr(c, t, te, " class=\""@, " class='"@);
                        let is_title = match cls {
                            Some(cl) => contains_seq(cl, "entry-title"@),
                            None => false,
                        };
                        if is_title {
                            let close = if pk.1 {
                                spec_find_tag(c, "</h1"@, te)
                            } else {
                                spec_find_tag(c, "</h2"@, te)
                            };
                            match close {
                                Some(cl) => if te + 1 <= cl {
                                    Some((te + 1, cl))
                                } else {
                                    None
                                },
                                None => None,
                            }
                        } else {
                            spec_heading(c, t + 1)
                        }
                    },
                }
            },
        }
    }
}

/// The title text and target of the link inside the heading, on listing
/// pages where the title is wrapped in a link.
pub open spec fn spec_listing_title_url(c: Seq<char>) -> Option<(Seq<char>, Seq<char>)> {
    match spec_heading(c, 0) {
        None => None,
        Some(hs) => match spec_find_tag(c, "<a"@, hs.0) {
            None => None,
            Some(at) => if at >= hs.1 {
                None
            } else {
                match spec_find_char(c, '>', at) {
                    None => None,
                    Some(ate) => {
                        let aclose = match spec_find_tag(c, "</a"@, ate) {
                            Some(x) => x,
                            None => hs.1,
                        };
                        if ate + 1 <= aclose {
                            match spec_attr(c, at, ate, " href=\""@, " href='"@) {
                                Some(u) => Some(
                                    (trim(strip_markup(c.subrange(ate + 1, aclose))), u),
                                ),
                                None => None,
                            }
                        } else {
                            None
                        }
                    },
                }
            },
        },
    }
}

/// The bare heading text, on single pages where the title has no link.
pub open spec fn spec_single_title(c: Seq<char>) -> Option<Seq<char>> {
    match spec_heading(c, 0) {
        None => None,
        Some(hs) => Some(trim(strip_markup(c.subrange(hs.0, hs.1)))),
    }
}

/// The date of the first time element after `p` whose class marks the
/// entry date: its machine-readable attribute, else its visible text.
pub open spec fn spec_date(c: Seq<char>, p: int) -> Option<Seq<char>>
    decreases c.len() - p + 1,
{
    if p < 0 {
        None
    } else {
        match spec_find_tag(c, "<time"@, p) {
            None => None,
            Some(t) => {
                proof {
                    lemma_spec_find_tag(c, "<time"@, p);
                }
                match spec_find_char(c, '>', t) {
                    None => None,
                    Some(te) => {
                        proof {
                            lemma_spec_find_char(c, '>', t);
                        }
                        let cls = spec_attr(c, t, te, " class=\""@, " class='"@);
                        let is_date = match cls {
                            Some(cl) => contains_seq(cl, "entry-date"@),
                            None => false,
                        };
                        if is_date {
                            match spec_attr(c, t, te, " datetime=\""@, " datetime='"@) {
                                Some(dt) => Some(dt),
                                None => {
                                    let close = match spec_find_tag(c, "</time"@, te) {
                                        Some(x) => x,
                                        None => c.len() as int,
                                    };
                                    if te + 1 <= close {
                                        Some(trim(strip_markup(c.subrange(te + 1, close))))
                                    } else {
                                        None
                                    }
                                },
                            }
                        } else {
                            spec_date(c, te + 1)
                        }
                    },
                }
            },
        }
    }
}

/// A record's fields agree with what the extractors say of the fragment:
/// the details, cover, magnet links and videos all come from the content
/// region, and no screenshots are attached yet.
pub open spec fn record_fields_agree(g: GameRepack, frag: Seq<char>) -> bool {
    &&& opt_str_agrees(g.genres_tags, detail_of(frag, 0))
    &&& opt_str_agrees(g.company, detail_of(frag, 1))
    &&& opt_str_agrees(g.languages, detail_of(frag, 2))
    &&& opt_str_agrees(g.original_size, detail_of(frag, 3))
    &&& opt_str_agrees(g.repack_size, detail_of(frag, 4))
    &&& opt_str_agrees(g.image_url, spec_cover(frag, 0))
    &&& g.magnet_links@.len() == spec_magnets(frag, 0).len()
    &&& forall|i: int|
        0 <= i < g.magnet_links@.len() ==> (#[trigger] g.magnet_links@[i]).source@ == spec_magnets(
            frag,
            0,
        )[i].0 && g.magnet_links@[i].magnet@ == spec_magnets(frag, 0)[i].1
    &&& g.videos@.len() == spec_videos(frag).len()
    &&& forall|i: int| 0 <= i < g.videos@.len() ==> (#[trigger] g.videos@[i])@ == spec_videos(frag)[i]
    &&& g.screenshots@.len() == 0
}

/// The content region of an article fragment.
pub open spec fn spec_fragment_content(c: Seq<char>) -> Option<Seq<char>> {
    match spec_content_span_from(c, 0) {
        None => None,
        Some(span) => Some(c.subrange(span.0, span.1)),
    }
}

/// Builds the shared part of a record from an article fragment.
fn record_from_content(fragment: &Vec<char>, title: String, url: String, date: Option<String>) -> (r:
    Option<GameRepack>)
    ensures
        r is Some <==> spec_fragment_content(fragment@) is Some,
        r matches Some(g) ==> {
            &&& g.title@ == title@
            &&& g.url@ == url@
            &&& opt_str_agrees(g.date, match date {
                Some(d) => Some(d@),
                None => None,
            })
            &&& record_fields_agree(g, spec_fragment_content(fragment@).unwrap())
        },
{
    let span = match content_span_from(fragment, 0) {
        Some(span) => span,
        None => {
            return None;
        },
    };
    let content = sub_vec(fragment, span.0, span.1);
    let details = Extractors::extract_game_details(&content);
    let image_url = Extractors::extract_cover_image(&content);
    let magnet_links = Extractors::extract_magnet_links(&content);
    let videos = Extractors::extract_video_urls(&content);
    Some(
        GameRepack {
            title,
            genres_tags: details.genres_tags,
            company: details.company,
            languages: details.languages,
            original_size: details.original_size,
            repack_size: details.repack_size,
            url,
            date,
            image_url,
            magnet_links,
            screenshots: Vec::new(),
            videos,
        },
    )
}

/// The date of an article fragment, executably.
fn date_of(fragment: &Vec<char>) -> (r: Option<String>)
    ensures
        opt_str_agrees(r, spec_date(fragment@, 0)),
{
    let n = fragment.len();
    let mut p: usize = 0;
    loop
        invariant
            spec_date(fragment@, 0) == spec_date(fragment@, p as int),
            n == fragment@.len(),
        decreases fragment@.len() + 1 - p,
    {
        let t = match find_tag(fragment, "<time", p) {
            Some(t) => t,
            None => {
                return None;
            },
        };
        let te = match find_char_from(fragment, '>', t) {
            Some(te) => te,
            None => {
                return None;
            },
        };
        let cls = attr_value(fragment, t, te, " class=\"", " class='");
        let is_date = match &cls {
            Some(cl) => crate::text::contains_str(cl, "entry-date"),
            None => false,
        };
        if is_date {
            match attr_value(fragment, t, te, " datetime=\"", " datetime='") {
                Some(dt) => {
                    return Some(string_from_chars(&dt));
                },
                None => {
                    let close = match find_tag(fragment, "</time", te) {
                        Some(x) => x,
                        None => fragment.len(),
                    };
                    if te + 1 <= close {
                        let txt = inner_text(fragment, te + 1, close);
                        let ta = trim_leading_e(&txt);
                        let tb = trim_trailing_e(&ta);
                        return Some(string_from_chars(&tb));
                    }
                    return None;
                },
            }
        }
        p = te + 1;
    }
}

/// The heading span of a fragment, executably.
fn heading_span(fragment: &Vec<char>) -> (r: Option<(usize, usize)>)
    ensures
        match r {
            Some(hs) => spec_heading(fragment@, 0) == Some((hs.0 as int, hs.1 as int)) && hs.0
                <= hs.1 <= fragment@.len(),
            None => spec_heading(fragment@, 0) is None,
        },
{
    let n = fragment.len();
    let mut p: usize = 0;
    loop
        invariant
            spec_heading(fragment@, 0) == spec_heading(fragment@, p as int),
            n == fragment@.len(),
        decreases fragment@.len() + 1 - p,
    {
        let t1 = find_tag(fragment, "<h1", p);
        let t2 = find_tag(fragment, "<h2", p);
        let pick: Option<(usize, bool)> = match (t1, t2) {
            (Some(a), Some(b)) => if a <= b {
                Some((a, true))
            } else {
                Some((b, false))
            },
            (Some(a), None) => Some((a, true)),
            (None, Some(b)) => Some((b, false)),
            (None, None) => None,
        };
        let pk = match pick {
            Some(pk) => pk,
            None => {
                return None;
            },
        };
        let t = pk.0;
        let te = match find_char_from(fragment, '>', t) {
            Some(te) => te,
            None => {
                return None;
            },
        };
        let cls = attr_value(fragment, t, te, " class=\"", " class='");
        let is_title = match &cls {
            Some(cl) => crate::text::contains_str(cl, "entry-title"),
            None => false,
        };
        if is_title {
            let close = if pk.1 {
                find_tag(fragment, "</h1", te)
            } else {
                find_tag(fragment, "</h2", te)
            };
            return match close {
                Some(cl) => if te + 1 <= cl {
                    Some((te + 1, cl))
                } else {
                    None
                },
                None => None,
            };
        }
        p = t + 1;
    }
}

/// The catalog crawler: its base URL, fixed inter-request delay, and
/// exclusion patterns. Fetching itself is the caller's work; this type
/// holds the crawl rules and turns fetched pages into records.
pub struct FitGirlCrawler {
    pub base_url: String,
    pub crawl_delay_secs: u64,
    pub blacklist: Vec<String>,
}

impl FitGirlCrawler {
    /// A crawler over the catalog site with the built-in exclusion
    /// patterns and the default one-second delay.
    pub fn new() -> (r: Result<FitGirlCrawler, ()>)
        ensures
            r matches Ok(c) ==> {
                &&& c.base_url@ == "https://fitgirl-repacks.site"@
                &&& c.crawl_delay_secs == 1
                &&& c.blacklist@.len() == default_blacklist().len()
                &&& forall|i: int|
                    0 <= i < c.blacklist@.len() ==> (#[trigger] c.blacklist@[i])@
                        == default_blacklist()[i]
            },
            r is Ok,
    {
        Ok(
            FitGirlCrawler {
                base_url: "https://fitgirl-repacks.site".to_owned(),
                crawl_delay_secs: 1,
                blacklist: load_default_blacklist(),
            },
        )
    }

    /// A crawler with patterns read from a config file by the caller.
    pub fn with_blacklist(blacklist: Vec<String>) -> (r: FitGirlCrawler)
        ensures
            r.base_url@ == "https://fitgirl-repacks.site"@,
            r.crawl_delay_secs == 1,
            r.blacklist@ == blacklist@,
    {
        FitGirlCrawler {
            base_url: "https://fitgirl-repacks.site".to_owned(),
            crawl_delay_secs: 1,
            blacklist,
        }
    }

    /// The URL of catalog page `page_num`: the base URL for page one,
    /// else the numbered page path.
    pub fn page_url(&self, page_num: u32) -> (r: String)
        ensures
            page_num == 1 ==> r@ == self.base_url@,
            page_num != 1 ==> r@ == self.base_url@ + "/page/"@ + spec_dec_str(page_num as nat)
                + "/"@,
    {
        if page_num == 1 {
            let v = chars_of(self.base_url.as_str());
            return string_from_chars(&v);
        }
        let mut out = chars_of(self.base_url.as_str());
        let mut part = chars_of("/page/");
        out.append(&mut part);
        let num = u64_to_dec_string(page_num as u64);
        let mut numv = chars_of(num.as_str());
        out.append(&mut numv);
        let mut tail = chars_of("/");
        out.append(&mut tail);
        string_from_chars(&out)
    }

    /// Whether a record is excluded: some pattern occurs in the
    /// lowercased URL or the lowercased title.
    pub fn is_blacklisted(&self, url: &str, title: &str) -> (r: bool)
        ensures
            r == any_pattern_hits(lower_of(url@), lower_of(title@), self.blacklist@),
    {
        crate::blacklist::is_blacklisted(&self.blacklist, url, title)
    }

    /// One record from a listing-page article fragment: the linked
    /// heading gives title and URL; no record without a linked heading or
    /// a content region.
    pub fn extract_repack_from_article(fragment: &Vec<char>) -> (r: Option<GameRepack>)
        ensures
            r is Some <==> (spec_listing_title_url(fragment@) is Some && spec_fragment_content(
                fragment@,
            ) is Some),
            r matches Some(g) ==> {
                &&& g.title@ == spec_listing_title_url(fragment@).unwrap().0
                &&& g.url@ == spec_listing_title_url(fragment@).unwrap().1
                &&& opt_str_agrees(g.date, spec_date(fragment@, 0))
                &&& record_fields_agree(g, spec_fragment_content(fragment@).unwrap())
            },
    {
        let n = fragment.len();
        let hs = match heading_span(fragment) {
            Some(hs) => hs,
            None => {
                return None;
            },
        };
        let at = match find_tag(fragment, "<a", hs.0) {
            Some(at) => at,
            None => {
                return None;
            },
        };
        if at >= hs.1 {
            return None;
        }
        let ate = match find_char_from(fragment, '>', at) {
            Some(x) => x,
            None => {
                return None;
            },
        };
        let aclose = match find_tag(fragment, "</a", ate) {
            Some(x) => x,
            None => hs.1,
        };
        if ate + 1 > aclose {
            return None;
        }
        let url = match attr_value(fragment, at, ate, " href=\"", " href='") {
            Some(u) => string_from_chars(&u),
            None => {
                return None;
            },
        };
        let txt = inner_text(fragment, ate + 1, aclose);
        let ta = trim_leading_e(&txt);
        let tb = trim_trailing_e(&ta);
        let title = string_from_chars(&tb);
        let date = date_of(fragment);
        record_from_content(fragment, title, url, date)
    }

    /// One record from a single release page's article fragment: the bare
    /// heading gives the title and the caller supplies the URL; the raw
    /// gallery link, when present, comes back beside the record. No
    /// record without a nonempty title or a content region.
    pub fn extract_repack_from_single_page(fragment: &Vec<char>, url: &str) -> (r: Option<
        (GameRepack, Option<String>),
    >)
        ensures
            r is Some <==> (spec_single_title(fragment@) matches Some(t) && t.len() > 0
                && spec_fragment_content(fragment@) is Some),
            r matches Some(p) ==> {
                &&& p.0.title@ == spec_single_title(fragment@).unwrap()
                &&& p.0.url@ == url@
                &&& opt_str_agrees(p.0.date, spec_date(fragment@, 0))
                &&& record_fields_agree(p.0, spec_fragment_content(fragment@).unwrap())
                &&& opt_str_agrees(p.1, spec_riot_url(spec_fragment_content(fragment@).unwrap()))
            },
    {
        let hs = match heading_span(fragment) {
            Some(hs) => hs,
            None => {
                return None;
            },
        };
        let txt = inner_text(fragment, hs.0, hs.1);
        let ta = trim_leading_e(&txt);
        let tb = trim_trailing_e(&ta);
        if tb.len() == 0 {
            return None;
        }
        let title = string_from_chars(&tb);
        let date = date_of(fragment);
        let url_s = {
            let uv = chars_of(url);
            string_from_chars(&uv)
        };
        let span = match content_span_from(fragment, 0) {
            Some(span) => span,
            None => {
                return None;
            },
        };
        let content = sub_vec(fragment, span.0, span.1);
        let gallery = Extractors::extract_riotpixels_screenshot_url(&content);
        match record_from_content(fragment, title, url_s, date) {
            Some(g) => Some((g, gallery)),
            None => None,
        }
    }
}


/// The article spans of a listing page from `p` on: each from its open
/// tag to its matching close.
pub open spec fn spec_articles(c: Seq<char>, p: int) -> Seq<(int, int)>
    decreases c.len() - p + 1,
{
    if p < 0 {
        Seq::empty()
    } else {
        match spec_find_tag(c, "<article"@, p) {
            None => Seq::empty(),
            Some(t) => {
                proof {
                    lemma_spec_find_tag(c, "<article"@, p);
                }
                match spec_find_char(c, '>', t) {
                    None => Seq::empty(),
                    Some(te) => {
                        proof {
                            lemma_spec_find_char(c, '>', t);
                        }
                        let aend = spec_element_end(c, te + 1, "<article"@, "</article"@, 0);
                        proof {
                            lemma_spec_element_end(c, te + 1, "<article"@, "</article"@, 0);
                        }
                        if aend > te {
                            seq![(t, aend)] + spec_articles(c, aend)
                        } else {
                            seq![(t, aend)]
                        }
                    },
                }
            },
        }
    }
}

/// Whether the fragment yields a record that survives the blacklist.
pub open spec fn spec_fragment_kept(frag: Seq<char>, bl: Seq<String>) -> bool {
    &&& spec_listing_title_url(frag) is Some
    &&& spec_fragment_content(frag) is Some
    &&& !any_pattern_hits(
        lower_of(spec_listing_title_url(frag).unwrap().1),
        lower_of(spec_listing_title_url(frag).unwrap().0),
        bl,
    )
}

/// The article spans of the page whose fragments yield kept records.
pub open spec fn spec_kept_articles(c: Seq<char>, bl: Seq<String>) -> Seq<(int, int)> {
    spec_articles(c, 0).filter(
        |sp: (int, int)| 0 <= sp.0 <= sp.1 <= c.len() && spec_fragment_kept(
            c.subrange(sp.0, sp.1),
            bl,
        ),
    )
}

impl FitGirlCrawler {
    /// Turns one fetched listing page into its records: every article
    /// fragment that yields a record and survives the blacklist, in page
    /// order.
    #[verifier::loop_isolation(false)]
    pub fn crawl_page_html(&self, html: &str) -> (r: Vec<GameRepack>)
        ensures
            r@.len() == spec_kept_articles(html@, self.blacklist@).len(),
            forall|i: int|
                0 <= i < r@.len() ==> {
                    let sp = spec_kept_articles(html@, self.blacklist@)[i];
                    let frag = html@.subrange(sp.0, sp.1);
                    &&& (#[trigger] r@[i]).title@ == spec_listing_title_url(frag).unwrap().0
                    &&& r@[i].url@ == spec_listing_title_url(frag).unwrap().1
                    &&& opt_str_agrees(r@[i].date, spec_date(frag, 0))
                    &&& record_fields_agree(r@[i], spec_fragment_content(frag).unwrap())
                },
    {
        let c = chars_of(html);
        let n = c.len();
        let mut out: Vec<GameRepack> = Vec::new();
        let ghost all = spec_articles(c@, 0);
        let ghost keep = |sp: (int, int)| 0 <= sp.0 <= sp.1 <= c@.len() && spec_fragment_kept(
            c@.subrange(sp.0, sp.1),
            self.blacklist@,
        );
        let mut p: usize = 0;
        let ghost mut seen: Seq<(int, int)> = Seq::empty();
        loop
            invariant
                c@ == html@,
                all == spec_articles(c@, 0),
                all =~= seen + spec_articles(c@, p as int),
                out@.len() == seen.filter(keep).len(),
                keep == (|sp: (int, int)| 0 <= sp.0 <= sp.1 <= c@.len() && spec_fragment_kept(
                    c@.subrange(sp.0, sp.1),
                    self.blacklist@,
                )),
                forall|i: int|
                    0 <= i < out@.len() ==> {
                        let sp = seen.filter(keep)[i];
                        let frag = c@.subrange(sp.0, sp.1);
                        &&& (#[trigger] out@[i]).title@ == spec_listing_title_url(frag).unwrap().0
                        &&& out@[i].url@ == spec_listing_title_url(frag).unwrap().1
                        &&& opt_str_agrees(out@[i].date, spec_date(frag, 0))
                        &&& record_fields_agree(out@[i], spec_fragment_content(frag).unwrap())
                    },
            decreases c@.len() + 1 - p,
        {
            let ghost seen0 = seen;
            let t = match find_tag(&c, "<article", p) {
                Some(t) => t,
                None => {
                    proof {
                        assert(spec_articles(c@, p as int) =~= Seq::<(int, int)>::empty());
                        assert(seen =~= all);
                        assert(spec_kept_articles(html@, self.blacklist@) == all.filter(keep));
                    }
                    return out;
                },
            };
            let te = match find_char_from(&c, '>', t) {
                Some(te) => te,
                None => {
                    proof {
                        assert(spec_articles(c@, p as int) =~= Seq::<(int, int)>::empty());
                        assert(seen =~= all);
                        assert(spec_kept_articles(html@, self.blacklist@) == all.filter(keep));
                    }
                    return out;
                },
            };
            proof {
                reveal_strlit("<article");
                reveal_strlit("</article");
            }
            let aend = element_end(&c, te + 1, "<article", "</article");
            proof {
                lemma_spec_element_end(c@, te + 1, "<article"@, "</article"@, 0);
                seen = seen.push((t as int, aend as int));
                assert(seen.drop_last() == seen0);
                assert(seen0.filter(keep) == seen.drop_last().filter(keep));
                reveal_with_fuel(Seq::filter, 2);
            }
            let frag = sub_vec(&c, t, aend);
            match Self::extract_repack_from_article(&frag) {
                Some(g) => {
                    if !crate::blacklist::is_blacklisted(&self.blacklist, g.url.as_str(),
                        g.title.as_str()) {
                        out.push(g);
                        proof {
                            assert(keep((t as int, aend as int)));
                            assert(seen.filter(keep) =~= seen0.filter(keep).push(
                                (t as int, aend as int),
                            ));
                        }
                    } else {
                        proof {
                            assert(!keep((t as int, aend as int)));
                            assert(seen.filter(keep) =~= seen0.filter(keep));
                        }
                    }
                },
                None => {
                    proof {
                        assert(!keep((t as int, aend as int)));
                        assert(seen.filter(keep) =~= seen0.filter(keep));
                    }
                },
            }
            if aend > te {
                p = aend;
            } else {
                proof {
                    assert(false);
                }
            }
        }
    }
}

/// A release URL is already known to the store.
pub open spec fn url_known(u: Seq<char>, known: Seq<String>) -> bool {
    exists|i: int| 0 <= i < known.len() && (#[trigger] known[i])@ == u
}

/// The records whose URLs the store does not know yet, in order.
pub open spec fn spec_filter_new(rs: Seq<GameRepack>, known: Seq<String>) -> Seq<GameRepack>
    decreases rs.len(),
{
    if rs.len() == 0 {
        rs
    } else if url_known(rs[0].url@, known) {
        spec_filter_new(rs.drop_first(), known)
    } else {
        seq![rs[0]] + spec_filter_new(rs.drop_first(), known)
    }
}

/// Keeps the records whose URLs are not yet known, in order. This is the
/// page filter of the incremental update; the known URLs come from the
/// storage collaborator.
pub fn filter_new(records: Vec<GameRepack>, known: &Vec<String>) -> (r: Vec<GameRepack>)
    ensures
        r@ == spec_filter_new(records@, known@),
{
    let mut rs = records;
    let mut out: Vec<GameRepack> = Vec::new();
    proof {
        assert(Seq::<GameRepack>::empty() + spec_filter_new(rs@, known@) =~= spec_filter_new(
            rs@,
            known@,
        ));
    }
    while rs.len() > 0
        invariant
            spec_filter_new(records@, known@) == out@ + spec_filter_new(rs@, known@),
        decreases rs@.len(),
    {
        let ghost rest = rs@;
        let mut hit = false;
        let mut k: usize = 0;
        while k < known.len()
            invariant
                k <= known@.len(),
                rs@.len() > 0,
                rs@ == rest,
                hit ==> url_known(rs@[0].url@, known@),
                !hit ==> forall|j: int| 0 <= j < k ==> (#[trigger] known@[j])@ != rs@[0].url@,
            decreases known@.len() - k,
        {
            if !hit && known[k].eq(&rs[0].url) {
                hit = true;
            }
            k += 1;
        }
        let ghost out0 = out@;
        let g = rs.remove(0);
        proof {
            assert(rs@ =~= rest.drop_first());
        }
        if !hit {
            proof {
                assert(!url_known(g.url@, known@));
            }
            out.push(g);
            proof {
                assert(out@ + spec_filter_new(rs@, known@) =~= out0 + (seq![rest[0]]
                    + spec_filter_new(rest.drop_first(), known@)));
            }
        } else {
            proof {
                assert(url_known(rest[0].url@, known@));
            }
        }
    }
    proof {
        assert(out@ + Seq::<GameRepack>::empty() =~= out@);
    }
    out
}


/// Why a crawl run stopped.
#[derive(Debug, Clone, Copy, PartialEq, Eq, Structural)]
pub enum StopReason {
    /// A page yielded no records at all.
    EmptyPage,
    /// A page yielded no records that were new to the store.
    NoNewRecords,
    /// The page limit was reached.
    PageLimit,
    /// A fetch or parse failed; what was already emitted stands.
    FetchError,
}

/// The page cursor of a full or paged crawl: the next page to fetch, the
/// records emitted so far, and how the run ended. Created at the start of
/// a run and discarded at its end.
#[derive(Debug, Clone, Copy, PartialEq, Eq, Structural)]
pub struct CrawlCursor {
    pub page: u32,
    pub limit: Option<u32>,
    pub total: usize,
    pub reason: Option<StopReason>,
}

/// What the cursor becomes after a page yields `count` records.
pub open spec fn spec_cursor_on_page(c: CrawlCursor, count: usize) -> CrawlCursor {
    if count == 0 {
        CrawlCursor { reason: Some(StopReason::EmptyPage), ..c }
    } else {
        let next = CrawlCursor {
            page: (c.page + 1) as u32,
            total: (c.total + count) as usize,
            ..c
        };
        match c.limit {
            Some(l) => if next.page >= l {
                CrawlCursor { reason: Some(StopReason::PageLimit), ..next }
            } else {
                next
            },
            None => next,
        }
    }
}

impl CrawlCursor {
    /// A cursor at `start_page` that stops after `max_pages` pages, or
    /// never on its own when no bound is given.
    pub fn begin(start_page: u32, max_pages: Option<u32>) -> (r: CrawlCursor)
        requires
            match max_pages {
                Some(m) => start_page + m <= u32::MAX,
                None => true,
            },
        ensures
            r.page == start_page,
            r.total == 0,
            r.reason is None,
            r.limit == match max_pages {
                Some(m) => Some((start_page + m) as u32),
                None => None::<u32>,
            },
    {
        let limit = match max_pages {
            Some(m) => Some(start_page + m),
            None => None,
        };
        CrawlCursor { page: start_page, limit, total: 0, reason: None }
    }

    /// Whether the run goes on.
    pub fn running(&self) -> (r: bool)
        ensures
            r == (self.reason is None),
    {
        self.reason.is_none()
    }

    /// Advances past a page that yielded `count` records: an empty page
    /// ends the run; otherwise the count accumulates, the cursor moves to
    /// the next page, and the run ends when the page limit is reached.
    pub fn on_page(self, count: usize) -> (r: CrawlCursor)
        requires
            self.reason is None,
            self.page < u32::MAX,
            self.total + count <= usize::MAX,
        ensures
            r == spec_cursor_on_page(self, count),
            count == 0 ==> r.reason == Some(StopReason::EmptyPage) && r.page == self.page
                && r.total == self.total,
            count > 0 ==> r.page == self.page + 1 && r.total == self.total + count,
    {
        if count == 0 {
            return CrawlCursor { reason: Some(StopReason::EmptyPage), ..self };
        }
        let next = CrawlCursor { page: self.page + 1, total: self.total + count, ..self };
        match self.limit {
            Some(l) => {
                if next.page >= l {
                    CrawlCursor { reason: Some(StopReason::PageLimit), ..next }
                } else {
                    next
                }
            },
            None => next,
        }
    }

    /// Ends the run after a failed fetch or parse; what was already
    /// emitted stands.
    pub fn on_error(self) -> (r: CrawlCursor)
        ensures
            r == (CrawlCursor { reason: Some(StopReason::FetchError), ..self }),
    {
        CrawlCursor { reason: Some(StopReason::FetchError), ..self }
    }
}

/// The incremental update's safety bound on pages.
pub open spec fn update_page_limit() -> u32 {
    10
}

/// The page cursor of an incremental update: pages forward from page one
/// and stops at the first page with no new records, or past the safety
/// bound.
#[derive(Debug, Clone, Copy, PartialEq, Eq, Structural)]
pub struct UpdateCursor {
    pub page: u32,
    pub total_new: usize,
    pub reason: Option<StopReason>,
}

/// What the update cursor becomes after a page yields `new_count` records
/// that the store did not know.
pub open spec fn spec_update_on_page(c: UpdateCursor, new_count: usize) -> UpdateCursor {
    if new_count == 0 {
        UpdateCursor { reason: Some(StopReason::NoNewRecords), ..c }
    } else {
        let next = UpdateCursor {
            page: (c.page + 1) as u32,
            total_new: (c.total_new + new_count) as usize,
            ..c
        };
        if next.page > update_page_limit() {
            UpdateCursor { reason: Some(StopReason::PageLimit), ..next }
        } else {
            next
        }
    }
}

impl UpdateCursor {
    /// An update starts at page one with nothing accumulated.
    pub fn begin() -> (r: UpdateCursor)
        ensures
            r.page == 1,
            r.total_new == 0,
            r.reason is None,
    {
        UpdateCursor { page: 1, total_new: 0, reason: None }
    }

    /// Whether the update goes on.
    pub fn running(&self) -> (r: bool)
        ensures
            r == (self.reason is None),
    {
        self.reason.is_none()
    }

    /// Advances past a page that yielded `new_count` unknown records: a
    /// page with none ends the run at once; otherwise the count
    /// accumulates and the run ends past the safety bound of ten pages.
    pub fn on_page(self, new_count: usize) -> (r: UpdateCursor)
        requires
            self.reason is None,
            self.page < u32::MAX,
            self.total_new + new_count <= usize::MAX,
        ensures
            r == spec_update_on_page(self, new_count),
    {
        if new_count == 0 {
            return UpdateCursor { reason: Some(StopReason::NoNewRecords), ..self };
        }
        let next = UpdateCursor { page: self.page + 1, total_new: self.total_new + new_count, ..self };
        if next.page > 10 {
            UpdateCursor { reason: Some(StopReason::PageLimit), ..next }
        } else {
            next
        }
    }

    /// Ends the run after a failed fetch or parse.
    pub fn on_error(self) -> (r: UpdateCursor)
        ensures
            r == (UpdateCursor { reason: Some(StopReason::FetchError), ..self }),
    {
        UpdateCursor { reason: Some(StopReason::FetchError), ..self }
    }
}

/// When the store already knows every URL of a page's records, the page
/// filter keeps nothing, and an update at that page stops right there
/// with nothing accumulated beyond what it had: in particular an update
/// whose first page brings nothing new ends after page one with zero new
/// records.
pub proof fn lemma_update_stops_when_all_known(
    rs: Seq<GameRepack>,
    known: Seq<String>,
    c: UpdateCursor,
)
    requires
        forall|i: int| 0 <= i < rs.len() ==> url_known((#[trigger] rs[i]).url@, known),
    ensures
        spec_filter_new(rs, known).len() == 0,
        spec_update_on_page(c, spec_filter_new(rs, known).len() as usize).reason == Some(
            StopReason::NoNewRecords,
        ),
        spec_update_on_page(c, spec_filter_new(rs, known).len() as usize).page == c.page,
        spec_update_on_page(c, spec_filter_new(rs, known).len() as usize).total_new == c.total_new,
    decreases rs.len(),
{
    if rs.len() > 0 {
        assert(url_known(rs[0].url@, known));
        assert(forall|i: int|
            0 <= i < rs.drop_first().len() ==> url_known(
                (#[trigger] rs.drop_first()[i]).url@,
                known,
            ));
        lemma_update_stops_when_all_known(rs.drop_first(), known, c);
    }
}


/// The category names listed by a genres text: the comma-separated
/// pieces, trimmed, with empty pieces dropped. The storage collaborator
/// keys categories by these names.
pub open spec fn spec_categories(s: Seq<char>, i: int) -> Seq<Seq<char>>
    decreases s.len() - i + 1,
{
    if i < 0 || i > s.len() {
        Seq::empty()
    } else {
        let e = match spec_find_char(s, ',', i) {
            Some(p) => p,
            None => s.len() as int,
        };
        let piece = trim(s.subrange(i, e));
        let here = if piece.len() > 0 {
            seq![piece]
        } else {
            Seq::<Seq<char>>::empty()
        };
        if e >= s.len() {
            here
        } else {
            proof {
                lemma_spec_find_char(s, ',', i);
            }
            here + spec_categories(s, e + 1)
        }
    }
}

fn categories_from(cs: &Vec<char>, i: usize) -> (r: Vec<String>)
    requires
        i <= cs@.len(),
    ensures
        r@.len() == spec_categories(cs@, i as int).len(),
        forall|k: int|
            0 <= k < r@.len() ==> (#[trigger] r@[k])@ == spec_categories(cs@, i as int)[k],
    decreases cs@.len() - i,
{
    let e = match find_char_from(cs, ',', i) {
        Some(p) => p,
        None => cs.len(),
    };
    proof {
        lemma_spec_find_char(cs@, ',', i as int);
    }
    let raw = sub_vec(cs, i, e);
    let ta = trim_leading_e(&raw);
    let piece = trim_trailing_e(&ta);
    let ghost here = if piece@.len() > 0 {
        seq![piece@]
    } else {
        Seq::<Seq<char>>::empty()
    };
    let ghost tail = if e >= cs@.len() {
        Seq::<Seq<char>>::empty()
    } else {
        spec_categories(cs@, e + 1)
    };
    proof {
        assert(spec_categories(cs@, i as int) =~= here + tail);
    }
    let mut out: Vec<String> = Vec::new();
    if piece.len() > 0 {
        out.push(string_from_chars(&piece));
    }
    proof {
        assert(out@.len() == here.len());
        assert(forall|k: int| 0 <= k < out@.len() ==> #[trigger] out@[k]@ == here[k]);
    }
    if e < cs.len() {
        let mut rest = categories_from(cs, e + 1);
        let ghost out0 = out@;
        out.append(&mut rest);
        proof {
            assert forall|k: int|
                0 <= k < out@.len() implies #[trigger] out@[k]@ == spec_categories(
                cs@,
                i as int,
            )[k] by {
                if k < out0.len() {
                    assert(out@[k] == out0[k]);
                } else {
                    assert(out@[k]@ == tail[k - here.len()]);
                }
            }
        }
    }
    out
}

/// Splits a genres text into the category names the store files a record
/// under: the comma-separated pieces, trimmed, empties dropped.
pub fn split_categories(genres_tags: &str) -> (r: Vec<String>)
    ensures
        r@.len() == spec_categories(genres_tags@, 0).len(),
        forall|k: int|
            0 <= k < r@.len() ==> (#[trigger] r@[k])@ == spec_categories(genres_tags@, 0)[k],
{
    let cs = chars_of(genres_tags);
    categories_from(&cs, 0)
}

} // verus!

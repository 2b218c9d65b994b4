//! Screenshot-gallery resolution: rewriting the gallery URL to its most
//! reliable regional host, spotting bot-challenge interceptions, and
//! picking the full-resolution and thumbnail image of each embedded
//! per-image metadata block.

use vstd::prelude::*;
use crate::html::spec_attr;
use crate::html::attr_value;
use crate::html::find_tag;
use crate::html::lemma_spec_find_tag;
use crate::html::spec_find_tag;
use crate::models::ScreenshotData;
use crate::text::chars_of;
use crate::text::contains_seq;
use crate::text::contains_str;
use crate::text::find_char_from;
use crate::text::lemma_spec_find_char;
use crate::text::lemma_spec_find_some;
use crate::text::replace_seq;
use crate::text::replace_str;
use crate::text::spec_find;
use crate::text::spec_find_char;
use crate::text::string_from_chars;
use crate::text::sub_vec;

verus! {

/// One entry of a thumbnail's embedded metadata array: the original-image
/// flag, the byte size, and the image URL, each as the page gave it.
#[derive(Debug, Clone)]
pub struct ShotItem {
    pub original: Option<i64>,
    pub byte_size: Option<i64>,
    pub url: Option<String>,
}

/// What the embedded JSON metadata text decodes to: a function of the
/// text alone; undecodable text gives the empty sequence.
pub uninterp spec fn onclick_items_of(s: Seq<char>) -> Seq<ShotItem>;

/// Relies on `serde_json::from_str`: decodes the embedded JSON array of
/// per-image objects, keeping the `o` (original flag), `s` (byte size)
/// and `u` (URL) fields of each; undecodable text gives no items.
#[verifier::external_body]
fn parse_onclick_items(s: &str) -> (r: Vec<ShotItem>)
    ensures
        r@ == onclick_items_of(s@),
{
    match serde_json::from_str::<Vec<serde_json::Value>>(s) {
        Ok(vals) => vals
            .iter()
            .map(
                |v| ShotItem {
                    original: v.get("o").and_then(|x| x.as_i64()),
                    byte_size: v.get("s").and_then(|x| x.as_i64()),
                    url: v.get("u").and_then(|x| x.as_str()).map(|x| x.to_string()),
                },
            )
            .collect(),
        Err(_) => Vec::new(),
    }
}

/// The byte-size key used when picking the largest image.
pub open spec fn max_key(it: ShotItem) -> int {
    match it.byte_size {
        Some(s) => s as int,
        None => 0,
    }
}

/// The byte-size key used when picking the smallest image.
pub open spec fn min_key(it: ShotItem) -> int {
    match it.byte_size {
        Some(s) => s as int,
        None => 0x7fff_ffff_ffff_ffff,
    }
}

/// The first item flagged as the original, from `i` on.
pub open spec fn first_original(items: Seq<ShotItem>, i: int) -> Option<int>
    decreases items.len() - i + 1,
{
    if i < 0 || i >= items.len() {
        None
    } else if items[i].original == Some(1i64) {
        Some(i)
    } else {
        first_original(items, i + 1)
    }
}

/// The index of the largest item, the last one on ties; `best` is the
/// best index so far.
pub open spec fn arg_max_last(items: Seq<ShotItem>, i: int, best: int) -> int
    decreases items.len() - i + 1,
{
    if i < 0 || i >= items.len() {
        best
    } else if 0 <= best < items.len() && max_key(items[i]) < max_key(items[best]) {
        arg_max_last(items, i + 1, best)
    } else {
        arg_max_last(items, i + 1, i)
    }
}

/// The index of the smallest item, the first one on ties.
pub open spec fn arg_min_first(items: Seq<ShotItem>, i: int, best: int) -> int
    decreases items.len() - i + 1,
{
    if i < 0 || i >= items.len() {
        best
    } else if 0 <= best < items.len() && min_key(items[i]) < min_key(items[best]) {
        arg_min_first(items, i + 1, i)
    } else {
        arg_min_first(items, i + 1, best)
    }
}

/// The screenshot selected from one metadata array: full resolution is the
/// item flagged original, else the largest by byte size (last on ties);
/// the thumbnail is the smallest by byte size (first on ties); both URLs
/// upgraded to HTTPS. Nothing is selected when the chosen full-resolution
/// item has no URL.
pub open spec fn spec_select(items: Seq<ShotItem>) -> Option<(Seq<char>, Option<Seq<char>>)> {
    if items.len() == 0 {
        None
    } else {
        let fi = match first_original(items, 0) {
            Some(i) => i,
            None => arg_max_last(items, 1, 0),
        };
        if 0 <= fi < items.len() {
            match items[fi].url {
                Some(u) => {
                    let fu = replace_seq(u@, "http:"@, "https:"@);
                    let ti = arg_min_first(items, 1, 0);
                    let tu = if 0 <= ti < items.len() {
                        match items[ti].url {
                            Some(v) => Some(replace_seq(v@, "http:"@, "https:"@)),
                            None => None,
                        }
                    } else {
                        None
                    };
                    Some((fu, tu))
                },
                None => None,
            }
        } else {
            None
        }
    }
}

/// Selects the full-resolution and thumbnail URL of one metadata array,
/// executably.
pub fn select_screenshot(items: &Vec<ShotItem>) -> (r: Option<ScreenshotData>)
    ensures
        match r {
            Some(sd) => spec_select(items@) matches Some(sp) && sd.full_url@ == sp.0
                && crate::models::opt_str_agrees(sd.thumbnail_url, sp.1),
            None => spec_select(items@) is None,
        },
{
    if items.len() == 0 {
        return None;
    }
    // full resolution: the flagged original, else the largest
    let mut fo: Option<usize> = None;
    let mut k: usize = 0;
    while k < items.len() && fo.is_none()
        invariant
            k <= items@.len(),
            match fo {
                Some(i) => i < k && first_original(items@, 0) == Some(i as int),
                None => first_original(items@, 0) == first_original(items@, k as int),
            },
        decreases items@.len() - k,
    {
        let is_orig = match items[k].original {
            Some(v) => v == 1,
            None => false,
        };
        if is_orig {
            fo = Some(k);
        }
        k += 1;
    }
    let fi: usize = match fo {
        Some(i) => i,
        None => {
            let mut best: usize = 0;
            let mut i: usize = 1;
            while i < items.len()
                invariant
                    1 <= i <= items@.len(),
                    best < items@.len(),
                    arg_max_last(items@, 1, 0) == arg_max_last(items@, i as int, best as int),
                decreases items@.len() - i,
            {
                let ki = match items[i].byte_size {
                    Some(s) => s,
                    None => 0,
                };
                let kb = match items[best].byte_size {
                    Some(s) => s,
                    None => 0,
                };
                if ki < kb {
                } else {
                    best = i;
                }
                i += 1;
            }
            best
        },
    };
    let fu = match &items[fi].url {
        Some(u) => u,
        None => {
            return None;
        },
    };
    let mut tbest: usize = 0;
    let mut i: usize = 1;
    while i < items.len()
        invariant
            1 <= i <= items@.len(),
            tbest < items@.len(),
            arg_min_first(items@, 1, 0) == arg_min_first(items@, i as int, tbest as int),
        decreases items@.len() - i,
    {
        let ki = match items[i].byte_size {
            Some(s) => s,
            None => 0x7fff_ffff_ffff_ffff,
        };
        let kb = match items[tbest].byte_size {
            Some(s) => s,
            None => 0x7fff_ffff_ffff_ffff,
        };
        if ki < kb {
            tbest = i;
        }
        i += 1;
    }
    let fv = chars_of(fu.as_str());
    let full = replace_str(&fv, "http:", "https:");
    let thumbnail_url = match &items[tbest].url {
        Some(v) => {
            let tv = chars_of(v.as_str());
            let tr = replace_str(&tv, "http:", "https:");
            Some(string_from_chars(&tr))
        },
        None => None,
    };
    Some(ScreenshotData { full_url: string_from_chars(&full), thumbnail_url })
}

/// The gallery client: URL cleanup, bot-challenge detection, and metadata
/// parsing of the fetched page.
pub struct RiotPixelsClient;

/// Trims the page-number path segment of a gallery URL while keeping its
/// query string: everything after `/screenshots/` goes, the part from the
/// first `?` on stays.
pub open spec fn spec_clean_gallery_url(u: Seq<char>) -> Seq<char> {
    match spec_find(u, "/screenshots/"@, 0) {
        Some(p) => {
            let base = u.subrange(0, p + 13);
            match spec_find_char(u, '?', 0) {
                Some(qp) => base + u.skip(qp),
                None => base,
            }
        },
        None => u,
    }
}

/// The gallery page body announces a bot challenge.
pub open spec fn spec_bot_challenge(h: Seq<char>) -> bool {
    contains_seq(h, "Just a moment"@) && contains_seq(h, "cloudflare"@)
}

impl RiotPixelsClient {
    /// A client needs no state of its own.
    pub fn new() -> (r: Result<Self, ()>)
        ensures
            r is Ok,
    {
        Ok(RiotPixelsClient)
    }

    /// Rewrites a raw gallery URL to its base screenshots page, keeping
    /// the query string's attribution parameters.
    pub fn clean_screenshot_url(url: &str) -> (r: String)
        ensures
            r@ == spec_clean_gallery_url(url@),
    {
        let u = chars_of(url);
        let p = match crate::text::find_from(&u, "/screenshots/", 0) {
            Some(p) => p,
            None => {
                return string_from_chars(&u);
            },
        };
        proof {
            lemma_spec_find_some(u@, "/screenshots/"@, 0);
            reveal_strlit("/screenshots/");
        }
        let n = u.len();
        let mut base = sub_vec(&u, 0, p + 13);
        match find_char_from(&u, '?', 0) {
            Some(qp) => {
                let mut tail = sub_vec(&u, qp, u.len());
                proof {
                    assert(tail@ =~= u@.skip(qp as int));
                }
                base.append(&mut tail);
                string_from_chars(&base)
            },
            None => string_from_chars(&base),
        }
    }

    /// Rewrites the gallery host to its most reliable regional subdomain.
    pub fn rewrite_gallery_host(url: &str) -> (r: String)
        ensures
            r@ == replace_seq(
                replace_seq(url@, "en.riotpixels.com"@, "ru.riotpixels.com"@),
                "://riotpixels.com"@,
                "://ru.riotpixels.com"@,
            ),
    {
        let u = chars_of(url);
        let s1 = replace_str(&u, "en.riotpixels.com", "ru.riotpixels.com");
        let s2 = replace_str(&s1, "://riotpixels.com", "://ru.riotpixels.com");
        string_from_chars(&s2)
    }

    /// Whether a fetched body is a bot-challenge interception rather than
    /// the gallery page.
    pub fn is_bot_challenge(html: &str) -> (r: bool)
        ensures
            r == spec_bot_challenge(html@),
    {
        let h = chars_of(html);
        contains_str(&h, "Just a moment") && contains_str(&h, "cloudflare")
    }
}


/// The last occurrence of `c` at or after `from`.
pub open spec fn spec_rfind_char(s: Seq<char>, c: char, from: int) -> Option<int>
    decreases s.len() - from + 1,
{
    if from < 0 {
        None
    } else {
        match spec_find_char(s, c, from) {
            None => None,
            Some(i) => {
                proof {
                    lemma_spec_find_char(s, c, from);
                }
                match spec_rfind_char(s, c, i + 1) {
                    Some(j) => Some(j),
                    None => Some(i),
                }
            },
        }
    }
}

/// The last occurrence of `c` at or after `from`, executably.
fn rfind_char(s: &Vec<char>, c: char, from: usize) -> (r: Option<usize>)
    ensures
        match r {
            Some(i) => spec_rfind_char(s@, c, from as int) == Some(i as int) && from <= i
                < s@.len(),
            None => spec_rfind_char(s@, c, from as int) is None,
        },
    decreases s@.len() + 1 - from,
{
    let n = s.len();
    match find_char_from(s, c, from) {
        None => None,
        Some(i) => match rfind_char(s, c, i + 1) {
            Some(j) => Some(j),
            None => Some(i),
        },
    }
}

/// The screenshot selected from one onclick metadata text: the embedded
/// JSON array between the first `[` and the last `]`, decoded and sifted
/// by the selection rule.
pub open spec fn spec_shot_of_onclick(o: Seq<char>) -> Option<(Seq<char>, Option<Seq<char>>)> {
    match spec_find_char(o, '[', 0) {
        None => None,
        Some(js) => match spec_rfind_char(o, ']', js) {
            None => None,
            Some(je) => if js <= je {
                spec_select(onclick_items_of(o.subrange(js, je + 1)))
            } else {
                None
            },
        },
    }
}

/// Whether some anchor from `p` on carries onclick metadata (and the
/// gallery class, when `need_class` is set).
pub open spec fn spec_has_onclick_anchor(c: Seq<char>, p: int, need_class: bool) -> bool
    decreases c.len() - p + 1,
{
    if p < 0 {
        false
    } else {
        match spec_find_tag(c, "<a"@, p) {
            None => false,
            Some(t) => {
                proof {
                    lemma_spec_find_tag(c, "<a"@, p);
                }
                match spec_find_char(c, '>', t) {
                    None => false,
                    Some(te) => {
                        proof {
                            lemma_spec_find_char(c, '>', t);
                        }
                        let onclick = spec_attr(c, t, te, " onclick=\""@, " onclick='"@);
                        let class_ok = !need_class || (match spec_attr(
                            c,
                            t,
                            te,
                            " class=\""@,
                            " class='"@,
                        ) {
                            Some(cl) => contains_seq(cl, "action-colorbox"@),
                            None => false,
                        });
                        if onclick is Some && class_ok {
                            true
                        } else {
                            spec_has_onclick_anchor(c, te + 1, need_class)
                        }
                    },
                }
            },
        }
    }
}

/// The screenshots named by the onclick metadata of the anchors from `p`
/// on.
pub open spec fn spec_gallery_shots(c: Seq<char>, p: int, need_class: bool) -> Seq<
    (Seq<char>, Option<Seq<char>>),
>
    decreases c.len() - p + 1,
{
    if p < 0 {
        Seq::empty()
    } else {
        match spec_find_tag(c, "<a"@, p) {
            None => Seq::empty(),
            Some(t) => {
                proof {
                    lemma_spec_find_tag(c, "<a"@, p);
                }
                match spec_find_char(c, '>', t) {
                    None => Seq::empty(),
                    Some(te) => {
                        proof {
                            lemma_spec_find_char(c, '>', t);
                        }
                        let rest = spec_gallery_shots(c, te + 1, need_class);
                        let onclick = spec_attr(c, t, te, " onclick=\""@, " onclick='"@);
                        let class_ok = !need_class || (match spec_attr(
                            c,
                            t,
                            te,
                            " class=\""@,
                            " class='"@,
                        ) {
                            Some(cl) => contains_seq(cl, "action-colorbox"@),
                            None => false,
                        });
                        match onclick {
                            Some(o) => if class_ok {
                                match spec_shot_of_onclick(o) {
                                    Some(sd) => seq![sd] + rest,
                                    None => rest,
                                }
                            } else {
                                rest
                            },
                            None => rest,
                        }
                    },
                }
            },
        }
    }
}

/// What the gallery page yields: the explicitly classed gallery anchors
/// when any exist, else every anchor with onclick metadata.
pub open spec fn spec_gallery(c: Seq<char>) -> Seq<(Seq<char>, Option<Seq<char>>)> {
    if spec_has_onclick_anchor(c, 0, true) {
        spec_gallery_shots(c, 0, true)
    } else {
        spec_gallery_shots(c, 0, false)
    }
}

#[verifier::loop_isolation(false)]
fn has_onclick_anchor(c: &Vec<char>, need_class: bool) -> (r: bool)
    ensures
        r == spec_has_onclick_anchor(c@, 0, need_class),
{
    let n = c.len();
    let mut p: usize = 0;
    loop
        invariant
            spec_has_onclick_anchor(c@, 0, need_class) == spec_has_onclick_anchor(
                c@,
                p as int,
                need_class,
            ),
        decreases c@.len() + 1 - p,
    {
        let t = match find_tag(c, "<a", p) {
            Some(t) => t,
            None => {
                return false;
            },
        };
        let te = match find_char_from(c, '>', t) {
            Some(te) => te,
            None => {
                return false;
            },
        };
        let onclick = attr_value(c, t, te, " onclick=\"", " onclick='");
        let class_ok = if need_class {
            match &attr_value(c, t, te, " class=\"", " class='") {
                Some(cl) => contains_str(cl, "action-colorbox"),
                None => false,
            }
        } else {
            true
        };
        if onclick.is_some() && class_ok {
            return true;
        }
        p = te + 1;
    }
}

#[verifier::loop_isolation(false)]
fn gallery_shots(c: &Vec<char>, need_class: bool) -> (r: Vec<ScreenshotData>)
    ensures
        r@.len() == spec_gallery_shots(c@, 0, need_class).len(),
        forall|i: int|
            0 <= i < r@.len() ==> {
                &&& (#[trigger] r@[i]).full_url@ == spec_gallery_shots(c@, 0, need_class)[i].0
                &&& crate::models::opt_str_agrees(
                    r@[i].thumbnail_url,
                    spec_gallery_shots(c@, 0, need_class)[i].1,
                )
            },
{
    let n = c.len();
    let ghost target = spec_gallery_shots(c@, 0, need_class);
    let mut out: Vec<ScreenshotData> = Vec::new();
    let mut p: usize = 0;
    loop
        invariant
            out@.len() <= target.len(),
            target =~= spec_gallery_shots(c@, 0, need_class),
            target.skip(out@.len() as int) =~= spec_gallery_shots(c@, p as int, need_class),
            forall|i: int|
                0 <= i < out@.len() ==> {
                    &&& (#[trigger] out@[i]).full_url@ == target[i].0
                    &&& crate::models::opt_str_agrees(out@[i].thumbnail_url, target[i].1)
                },
        decreases c@.len() + 1 - p,
    {
        let t = match find_tag(c, "<a", p) {
            Some(t) => t,
            None => {
                proof {
                    assert(target.skip(out@.len() as int).len() == 0);
                }
                return out;
            },
        };
        let te = match find_char_from(c, '>', t) {
            Some(te) => te,
            None => {
                proof {
                    assert(target.skip(out@.len() as int).len() == 0);
                }
                return out;
            },
        };
        let onclick = attr_value(c, t, te, " onclick=\"", " onclick='");
        let class_ok = if need_class {
            match &attr_value(c, t, te, " class=\"", " class='") {
                Some(cl) => contains_str(cl, "action-colorbox"),
                None => false,
            }
        } else {
            true
        };
        match &onclick {
            Some(o) => {
                if class_ok {
                    let ghost sp_shot = spec_shot_of_onclick(o@);
                    match shot_of_onclick(o) {
                        Some(sd) => {
                            let ghost n0 = out@.len() as int;
                            proof {
                                assert(target.skip(n0)[0] == sp_shot.unwrap());
                            }
                            out.push(sd);
                            proof {
                                assert(out@[n0].full_url@ == target[n0].0);
                                assert(target.skip(n0).drop_first() =~= target.skip(n0 + 1));
                            }
                        },
                        None => {},
                    }
                }
            },
            None => {},
        }
        p = te + 1;
    }
}

/// The screenshot named by one onclick metadata text, executably.
fn shot_of_onclick(o: &Vec<char>) -> (r: Option<ScreenshotData>)
    ensures
        match r {
            Some(sd) => spec_shot_of_onclick(o@) matches Some(sp) && sd.full_url@ == sp.0
                && crate::models::opt_str_agrees(sd.thumbnail_url, sp.1),
            None => spec_shot_of_onclick(o@) is None,
        },
{
    let js = match find_char_from(o, '[', 0) {
        Some(js) => js,
        None => {
            return None;
        },
    };
    let je = match rfind_char(o, ']', js) {
        Some(je) => je,
        None => {
            return None;
        },
    };
    let n = o.len();
    let json = sub_vec(o, js, je + 1);
    let jstr = string_from_chars(&json);
    let items = parse_onclick_items(jstr.as_str());
    select_screenshot(&items)
}

impl RiotPixelsClient {
    /// Parses a fetched gallery page into its screenshots: anchors with
    /// the gallery class first; when none carries onclick metadata, every
    /// anchor with onclick metadata.
    pub fn parse_screenshots_html(html: &str) -> (r: Vec<ScreenshotData>)
        ensures
            r@.len() == spec_gallery(html@).len(),
            forall|i: int|
                0 <= i < r@.len() ==> {
                    &&& (#[trigger] r@[i]).full_url@ == spec_gallery(html@)[i].0
                    &&& crate::models::opt_str_agrees(r@[i].thumbnail_url, spec_gallery(html@)[i].1)
                },
    {
        let c = chars_of(html);
        if has_onclick_anchor(&c, true) {
            gallery_shots(&c, true)
        } else {
            gallery_shots(&c, false)
        }
    }
}

} // verus!

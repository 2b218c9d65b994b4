//! Blacklist filtering: a record is excluded when any configured lowercase
//! pattern occurs inside the lowercased URL or title. Patterns come from an
//! optional config file (one per line, `#` comments) or from built-in
//! defaults.

use vstd::prelude::*;
use crate::text::chars_of;
use crate::text::contains_seq;
use crate::text::contains_str;
use crate::text::lemma_spec_find_char;
use crate::text::spec_find_char;
use crate::text::sub_vec;
use crate::text::trim_leading_e;
use crate::text::trim_trailing_e;

verus! {

/// What `str::to_lowercase` returns: a function of the characters alone.
pub uninterp spec fn lower_of(s: Seq<char>) -> Seq<char>;

/// Relies on `str::to_lowercase`: the lowercase mapping of the input,
/// depending on its characters alone.
#[verifier::external_body]
pub(crate) fn lowercase(s: &str) -> (r: String)
    ensures
        r@ == lower_of(s@),
{
    s.to_lowercase()
}

/// Some pattern of `ps` occurs in `u` or in `t`.
pub open spec fn any_pattern_hits(u: Seq<char>, t: Seq<char>, ps: Seq<String>) -> bool {
    exists|i: int|
        0 <= i < ps.len() && (contains_seq(u, #[trigger] ps[i]@) || contains_seq(t, ps[i]@))
}

/// Some pattern of `ps` occurs in `u`.
pub open spec fn any_pattern_hits_one(u: Seq<char>, ps: Seq<String>) -> bool {
    exists|i: int| 0 <= i < ps.len() && contains_seq(u, #[trigger] ps[i]@)
}

/// Whether any pattern occurs in the lowercased URL or the lowercased
/// title. Matching is case-insensitive through the lowercase mapping and
/// substring-based.
pub fn is_blacklisted(patterns: &Vec<String>, url: &str, title: &str) -> (r: bool)
    ensures
        r == any_pattern_hits(lower_of(url@), lower_of(title@), patterns@),
{
    let url_lower = lowercase(url);
    let title_lower = lowercase(title);
    let u = chars_of(url_lower.as_str());
    let t = chars_of(title_lower.as_str());
    let mut i: usize = 0;
    while i < patterns.len()
        invariant
            i <= patterns@.len(),
            u@ == lower_of(url@),
            t@ == lower_of(title@),
            forall|j: int|
                0 <= j < i ==> !contains_seq(u@, #[trigger] patterns@[j]@) && !contains_seq(
                    t@,
                    patterns@[j]@,
                ),
        decreases patterns@.len() - i,
    {
        if contains_str(&u, patterns[i].as_str()) || contains_str(&t, patterns[i].as_str()) {
            return true;
        }
        i += 1;
    }
    false
}

/// Whether any pattern occurs in the lowercased URL alone.
pub fn url_is_blacklisted(patterns: &Vec<String>, url: &str) -> (r: bool)
    ensures
        r == any_pattern_hits_one(lower_of(url@), patterns@),
{
    let url_lower = lowercase(url);
    let u = chars_of(url_lower.as_str());
    let mut i: usize = 0;
    while i < patterns.len()
        invariant
            i <= patterns@.len(),
            u@ == lower_of(url@),
            forall|j: int| 0 <= j < i ==> !contains_seq(u@, #[trigger] patterns@[j]@),
        decreases patterns@.len() - i,
    {
        if contains_str(&u, patterns[i].as_str()) {
            return true;
        }
        i += 1;
    }
    false
}

/// The built-in exclusion patterns of the popular lists.
pub open spec fn popular_blacklist() -> Seq<Seq<char>> {
    seq![
        "the-genesis-order"@,
        "one-more-night"@,
        "honeycome-come-come-party"@,
        "honey-select-2-libido"@,
        "gym-manager"@,
        "nymphomaniac-sex-addict"@,
        "lust-n-dead"@,
        "violet"@,
        "roomgirl-paradise"@,
        "house-party"@,
        "venus-vacation-prism-dead-or-alive-xtreme"@,
        "under-the-witch-heros-journey"@,
        "taboo-trial"@,
        "lost-chapter"@,
        "koikatsu"@,
        "av-director"@,
    ]
}

/// The built-in exclusion patterns of the popular lists, as strings.
pub fn load_popular_blacklist() -> (r: Vec<String>)
    ensures
        r@.len() == popular_blacklist().len(),
        forall|i: int| 0 <= i < r@.len() ==> #[trigger] r@[i]@ == popular_blacklist()[i],
{
    let mut v: Vec<String> = Vec::new();
    v.push("the-genesis-order".to_owned());
    v.push("one-more-night".to_owned());
    v.push("honeycome-come-come-party".to_owned());
    v.push("honey-select-2-libido".to_owned());
    v.push("gym-manager".to_owned());
    v.push("nymphomaniac-sex-addict".to_owned());
    v.push("lust-n-dead".to_owned());
    v.push("violet".to_owned());
    v.push("roomgirl-paradise".to_owned());
    v.push("house-party".to_owned());
    v.push("venus-vacation-prism-dead-or-alive-xtreme".to_owned());
    v.push("under-the-witch-heros-journey".to_owned());
    v.push("taboo-trial".to_owned());
    v.push("lost-chapter".to_owned());
    v.push("koikatsu".to_owned());
    v.push("av-director".to_owned());
    v
}

/// Whether a popular-list URL hits one of the built-in exclusion patterns,
/// case-insensitively.
pub fn is_popular_blacklisted(url: &str) -> (r: bool)
    ensures
        r == exists|i: int|
            0 <= i < popular_blacklist().len() && contains_seq(
                lower_of(url@),
                #[trigger] popular_blacklist()[i],
            ),
{
    let pats = load_popular_blacklist();
    let hit = url_is_blacklisted(&pats, url);
    proof {
        if hit {
            let i = choose|i: int|
                0 <= i < pats@.len() && contains_seq(lower_of(url@), #[trigger] pats@[i]@);
            assert(contains_seq(lower_of(url@), popular_blacklist()[i]));
        } else {
            assert forall|i: int|
                0 <= i < popular_blacklist().len() implies !contains_seq(
                lower_of(url@),
                #[trigger] popular_blacklist()[i],
            ) by {
                assert(!contains_seq(lower_of(url@), pats@[i]@));
            }
        }
    }
    hit
}

/// The default exclusion patterns of the main catalog crawl.
pub open spec fn default_blacklist() -> Seq<Seq<char>> {
    seq![
        "upcoming-repacks"@,
        "updates-digest"@,
        "russian movies"@,
        "movies weekend"@,
        "movies #"@,
    ]
}

/// The default exclusion patterns of the main catalog crawl, as strings.
pub fn load_default_blacklist() -> (r: Vec<String>)
    ensures
        r@.len() == default_blacklist().len(),
        forall|i: int| 0 <= i < r@.len() ==> #[trigger] r@[i]@ == default_blacklist()[i],
{
    let mut v: Vec<String> = Vec::new();
    v.push("upcoming-repacks".to_owned());
    v.push("updates-digest".to_owned());
    v.push("russian movies".to_owned());
    v.push("movies weekend".to_owned());
    v.push("movies #".to_owned());
    v
}

/// The patterns listed by a blacklist config text: one pattern per line,
/// trimmed and lowercased; blank lines and `#` comments are dropped.
pub open spec fn spec_blacklist_lines(s: Seq<char>, i: int) -> Seq<Seq<char>>
    decreases s.len() - i + 1,
{
    if i < 0 || i > s.len() {
        Seq::empty()
    } else {
        let e = match spec_find_char(s, '\n', i) {
            Some(p) => p,
            None => s.len() as int,
        };
        let line = crate::sizes::trim(s.subrange(i, e));
        let here = if line.len() > 0 && line[0] != '#' {
            seq![lower_of(line)]
        } else {
            Seq::empty()
        };
        if e >= s.len() {
            here
        } else {
            proof {
                lemma_spec_find_char(s, '\n', i);
            }
            here + spec_blacklist_lines(s, e + 1)
        }
    }
}

/// Patterns of the lines of `cs` from position `i` on.
fn parse_lines_from(cs: &Vec<char>, i: usize) -> (r: Vec<String>)
    requires
        i <= cs@.len(),
    ensures
        r@.len() == spec_blacklist_lines(cs@, i as int).len(),
        forall|k: int|
            0 <= k < r@.len() ==> #[trigger] r@[k]@ == spec_blacklist_lines(cs@, i as int)[k],
    decreases cs@.len() - i,
{
    let e = match crate::text::find_char_from(cs, '\n', i) {
        Some(p) => p,
        None => cs.len(),
    };
    proof {
        crate::text::lemma_spec_find_char(cs@, '\n', i as int);
    }
    let raw = sub_vec(cs, i, e);
    let la = trim_leading_e(&raw);
    let line = trim_trailing_e(&la);
    let ghost here = if line@.len() > 0 && line@[0] != '#' {
        seq![lower_of(line@)]
    } else {
        Seq::<Seq<char>>::empty()
    };
    let ghost tail = if e >= cs@.len() {
        Seq::<Seq<char>>::empty()
    } else {
        spec_blacklist_lines(cs@, e + 1)
    };
    proof {
        assert(spec_blacklist_lines(cs@, i as int) =~= here + tail);
    }
    let mut out: Vec<String> = Vec::new();
    if line.len() > 0 && line[0] != '#' {
        let ls = crate::text::string_from_chars(&line);
        out.push(lowercase(ls.as_str()));
    }
    proof {
        assert(out@.len() == here.len());
        assert(forall|k: int| 0 <= k < out@.len() ==> #[trigger] out@[k]@ == here[k]);
    }
    if e < cs.len() {
        let mut rest = parse_lines_from(cs, e + 1);
        let ghost out0 = out@;
        out.append(&mut rest);
        proof {
            assert forall|k: int|
                0 <= k < out@.len() implies #[trigger] out@[k]@ == spec_blacklist_lines(
                cs@,
                i as int,
            )[k] by {
                if k < out0.len() {
                    assert(out@[k] == out0[k]);
                } else {
                    assert(out@[k]@ == tail[k - here.len()]);
                }
            }
        }
    }
    out
}

/// Parses blacklist config text into its patterns: one per line, trimmed
/// and lowercased, skipping blanks and `#` comments.
pub fn parse_blacklist_content(content: &str) -> (r: Vec<String>)
    ensures
        r@.len() == spec_blacklist_lines(content@, 0).len(),
        forall|i: int|
            0 <= i < r@.len() ==> #[trigger] r@[i]@ == spec_blacklist_lines(content@, 0)[i],
{
    let cs = chars_of(content);
    parse_lines_from(&cs, 0)
}

} // verus!

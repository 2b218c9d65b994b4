//! Title normalization: strips version, build, revision, date, edition,
//! platform, parenthetical, bonus-content and repacker noise from raw release
//! titles through an ordered list of substitution rules, then collapses
//! whitespace and trailing punctuation.
//!
//! The rules are iterated until the title stops changing, so the published
//! normal form is a fixed point: normalizing twice gives the same answer as
//! normalizing once (see [`lemma_clean_title_idempotent`]).

use vstd::prelude::*;
use crate::text::is_ws;
use crate::text::is_ws_e;
use crate::text::matches_at;
use crate::text::sub_vec;
use crate::text::trim_leading;
use crate::text::trim_leading_e;
use crate::text::trim_trailing;
use crate::text::trim_trailing_e;
use crate::text::vec_eq;
use crate::text::is_digit;
use crate::text::is_digit_e;
use crate::text::skip_ws;
use crate::text::lemma_skip_ws;
use crate::text::skip_ws_e;
use crate::text::skip_digits;
use crate::text::lemma_skip_digits;
use crate::text::skip_digits_e;

verus! {

/// The dash characters the rules accept between a title and its noise.
pub open spec fn is_dash(c: char) -> bool {
    c == '-' || c == '\u{2013}'
}

/// End of a greedy run of `.digits` groups starting at `k`.
pub open spec fn skip_dot_digits(s: Seq<char>, k: int) -> int
    decreases s.len() - k,
{
    if 0 <= k && k + 1 < s.len() && s[k] == '.' && is_digit(s[k + 1]) {
        proof {
            lemma_skip_digits(s, k + 1);
        }
        skip_dot_digits(s, skip_digits(s, k + 1))
    } else {
        k
    }
}

pub proof fn lemma_skip_dot_digits(s: Seq<char>, k: int)
    requires
        0 <= k <= s.len(),
    ensures
        k <= skip_dot_digits(s, k) <= s.len(),
    decreases s.len() - k,
{
    if k + 1 < s.len() && s[k] == '.' && is_digit(s[k + 1]) {
        lemma_skip_digits(s, k + 1);
        lemma_skip_dot_digits(s, skip_digits(s, k + 1));
    }
}

/// End of a `whitespace* dash whitespace*` prefix at `i`, if one is there.
pub open spec fn dash_prefix(s: Seq<char>, i: int) -> Option<int> {
    let j = skip_ws(s, i);
    if 0 <= j && j < s.len() && is_dash(s[j]) {
        Some(skip_ws(s, j + 1))
    } else {
        None
    }
}

/// As `dash_prefix`, also accepting a colon (edition headers).
pub open spec fn dash_colon_prefix(s: Seq<char>, i: int) -> Option<int> {
    let j = skip_ws(s, i);
    if 0 <= j && j < s.len() && (is_dash(s[j]) || s[j] == ':') {
        Some(skip_ws(s, j + 1))
    } else {
        None
    }
}

proof fn lemma_dash_prefix(s: Seq<char>, i: int)
    requires
        0 <= i <= s.len(),
    ensures
        dash_prefix(s, i) matches Some(j) ==> i < j <= s.len(),
        dash_colon_prefix(s, i) matches Some(j) ==> i < j <= s.len(),
{
    lemma_skip_ws(s, i);
    let j = skip_ws(s, i);
    if j < s.len() {
        lemma_skip_ws(s, j + 1);
    }
}

/// End of `word whitespace+` at `i`, for label sequences such as
/// `Game of the Year`.
pub open spec fn word_ws(s: Seq<char>, i: int, w: Seq<char>) -> Option<int> {
    if matches_at(s, w, i) {
        let j = skip_ws(s, i + w.len());
        if j > i + w.len() {
            Some(j)
        } else {
            None
        }
    } else {
        None
    }
}

proof fn lemma_word_ws(s: Seq<char>, i: int, w: Seq<char>)
    ensures
        word_ws(s, i, w) matches Some(j) ==> i <= i + w.len() < j <= s.len(),
{
    if matches_at(s, w, i) {
        lemma_skip_ws(s, i + w.len() as int);
    }
}

/// End of `w` at `j`, if `w` occurs there.
pub open spec fn lit_end(s: Seq<char>, j: int, w: Seq<char>) -> Option<int> {
    if matches_at(s, w, j) {
        Some(j + w.len() as int)
    } else {
        None
    }
}

/// End of `whitespace+ w` at `k`.
pub open spec fn ws_word_end(s: Seq<char>, k: int, w: Seq<char>) -> Option<int> {
    let m = skip_ws(s, k);
    if m > k && matches_at(s, w, m) {
        Some(m + w.len() as int)
    } else {
        None
    }
}

proof fn lemma_ws_word_end(s: Seq<char>, k: int, w: Seq<char>)
    requires
        0 <= k <= s.len(),
    ensures
        ws_word_end(s, k, w) matches Some(e) ==> k < e <= s.len(),
{
    lemma_skip_ws(s, k);
}

/// A plain edition name followed by `whitespace+ Edition`.
pub open spec fn ed_plain(s: Seq<char>, j: int, w: Seq<char>) -> Option<int> {
    match lit_end(s, j, w) {
        Some(k) => ws_word_end(s, k, "Edition"@),
        None => None,
    }
}

/// `Collector`, optionally an apostrophe, optionally an `s`.
pub open spec fn collector_end(s: Seq<char>, j: int) -> Option<int> {
    match lit_end(s, j, "Collector"@) {
        Some(k) => {
            let k1 = if k < s.len() && s[k] == '\'' {
                k + 1
            } else {
                k
            };
            let k2 = if k1 < s.len() && s[k1] == 's' {
                k1 + 1
            } else {
                k1
            };
            Some(k2)
        },
        None => None,
    }
}

/// `Collector'`, optionally an `s` (the apostrophe is required here).
pub open spec fn collector_apos_end(s: Seq<char>, j: int) -> Option<int> {
    match lit_end(s, j, "Collector'"@) {
        Some(k) => Some(
            if k < s.len() && s[k] == 's' {
                k + 1
            } else {
                k
            },
        ),
        None => None,
    }
}

/// `Game whitespace+ of whitespace+ the whitespace+ Year`; `the` may be
/// capitalized when `any_case` is set.
pub open spec fn goty_end(s: Seq<char>, j: int, any_case: bool) -> Option<int> {
    match word_ws(s, j, "Game"@) {
        Some(a) => match word_ws(s, a, "of"@) {
            Some(b) => {
                let the = if matches_at(s, "the"@, b) || (any_case && matches_at(s, "The"@, b)) {
                    Some(b + 3)
                } else {
                    None::<int>
                };
                match the {
                    Some(c) => ws_word_end(s, c, "Year"@),
                    None => None,
                }
            },
            None => None,
        },
        None => None,
    }
}

/// `Director'`, optionally `s`, a space, then `Cut`.
pub open spec fn directors_cut_end(s: Seq<char>, j: int) -> Option<int> {
    match lit_end(s, j, "Director'"@) {
        Some(k) => {
            let k1 = if k < s.len() && s[k] == 's' {
                k + 1
            } else {
                k
            };
            lit_end(s, k1, " Cut"@)
        },
        None => None,
    }
}

/// The common edition names, each followed by `whitespace+ Edition`, tried in
/// order; used after a dash, colon or comma.
pub open spec fn common_edition_end(s: Seq<char>, j: int) -> Option<int> {
    match ed_plain(s, j, "Deluxe"@) {
        Some(e) => Some(e),
        None => match ed_plain(s, j, "Premium"@) {
            Some(e) => Some(e),
            None => match ed_plain(s, j, "Ultimate"@) {
                Some(e) => Some(e),
                None => match ed_plain(s, j, "Gold"@) {
                    Some(e) => Some(e),
                    None => match ed_plain(s, j, "Special"@) {
                        Some(e) => Some(e),
                        None => match collector_end(s, j) {
                            Some(k) => match ws_word_end(s, k, "Edition"@) {
                                Some(e) => Some(e),
                                None => common_edition_goty(s, j),
                            },
                            None => common_edition_goty(s, j),
                        },
                    },
                },
            },
        },
    }
}

pub open spec fn common_edition_goty(s: Seq<char>, j: int) -> Option<int> {
    match goty_end(s, j, false) {
        Some(k) => ws_word_end(s, k, "Edition"@),
        None => None,
    }
}

/// `(Digital whitespace+)?` then a common edition name and `Edition`.
pub open spec fn edition_tail(s: Seq<char>, d: int) -> Option<int> {
    match word_ws(s, d, "Digital"@) {
        Some(d2) => match common_edition_end(s, d2) {
            Some(e) => Some(e),
            None => common_edition_end(s, d),
        },
        None => common_edition_end(s, d),
    }
}

/// The rarer edition names of the second sweep, each followed by
/// `whitespace+ Edition`, tried in order.
pub open spec fn rare_edition_end(s: Seq<char>, j: int) -> Option<int> {
    match ed_plain(s, j, "Jackdaw"@) {
        Some(e) => Some(e),
        None => match ed_plain(s, j, "Supporter"@) {
            Some(e) => Some(e),
            None => match ed_plain(s, j, "Anniversary"@) {
                Some(e) => Some(e),
                None => match ed_plain(s, j, "Limited"@) {
                    Some(e) => Some(e),
                    None => match collector_apos_end(s, j) {
                        Some(k) => match ws_word_end(s, k, "Edition"@) {
                            Some(e) => Some(e),
                            None => rare_edition_end_2(s, j),
                        },
                        None => rare_edition_end_2(s, j),
                    },
                },
            },
        },
    }
}

pub open spec fn rare_edition_end_2(s: Seq<char>, j: int) -> Option<int> {
    match ed_plain(s, j, "Special"@) {
        Some(e) => Some(e),
        None => match ed_plain(s, j, "Enhanced"@) {
            Some(e) => Some(e),
            None => match ed_plain(s, j, "Definitive"@) {
                Some(e) => Some(e),
                None => match ed_plain(s, j, "Remastered"@) {
                    Some(e) => Some(e),
                    None => match directors_cut_end(s, j) {
                        Some(k) => match ws_word_end(s, k, "Edition"@) {
                            Some(e) => Some(e),
                            None => rare_edition_end_3(s, j),
                        },
                        None => rare_edition_end_3(s, j),
                    },
                },
            },
        },
    }
}

pub open spec fn rare_edition_end_3(s: Seq<char>, j: int) -> Option<int> {
    match goty_end(s, j, true) {
        Some(k) => match ws_word_end(s, k, "Edition"@) {
            Some(e) => Some(e),
            None => rare_edition_master(s, j),
        },
        None => rare_edition_master(s, j),
    }
}

pub open spec fn rare_edition_master(s: Seq<char>, j: int) -> Option<int> {
    match word_ws(s, j, "Master"@) {
        Some(a) => match lit_end(s, a, "Crafted"@) {
            Some(k) => match ws_word_end(s, k, "Edition"@) {
                Some(e) => Some(e),
                None => rare_edition_khaos(s, j),
            },
            None => rare_edition_khaos(s, j),
        },
        None => rare_edition_khaos(s, j),
    }
}

pub open spec fn rare_edition_khaos(s: Seq<char>, j: int) -> Option<int> {
    match word_ws(s, j, "Khaos"@) {
        Some(a) => match word_ws(s, a, "Reigns"@) {
            Some(b) => match lit_end(s, b, "Kollection"@) {
                Some(k) => ws_word_end(s, k, "Edition"@),
                None => None,
            },
            None => None,
        },
        None => None,
    }
}

/// One platform name, tried in order; the first hit wins.
pub open spec fn platform_word_end(s: Seq<char>, j: int) -> Option<int> {
    match lit_end(s, j, "GOG"@) {
        Some(e) => Some(e),
        None => match lit_end(s, j, "Steam"@) {
            Some(e) => Some(e),
            None => match lit_end(s, j, "MS"@) {
                Some(e) => Some(e),
                None => match lit_end(s, j, "Epic"@) {
                    Some(e) => Some(e),
                    None => match lit_end(s, j, "Origin"@) {
                        Some(e) => Some(e),
                        None => match lit_end(s, j, "Uplay"@) {
                            Some(e) => Some(e),
                            None => lit_end(s, j, "Battle.net"@),
                        },
                    },
                },
            },
        },
    }
}

/// One repacker label, tried in order.
pub open spec fn repacker_word_end(s: Seq<char>, j: int) -> Option<int> {
    match lit_end(s, j, "Monkey"@) {
        Some(e) => Some(e),
        None => match lit_end(s, j, "Turtle"@) {
            Some(e) => Some(e),
            None => match lit_end(s, j, "Compressed"@) {
                Some(e) => Some(e),
                None => lit_end(s, j, "BetterRepack"@),
            },
        },
    }
}

/// The ordered substitution rules. Each deletes its match; they run in
/// declaration order, and the whole list is repeated until nothing changes.
#[derive(Clone, Copy, PartialEq, Eq, Structural, Debug)]
pub enum Rule {
    /// `/` and everything after it.
    SlashTail,
    /// A comma followed by a `v`-version, to the end.
    CommaVersion,
    /// A comma followed by `Build n`, to the end.
    CommaBuild,
    /// A dash followed by a `v`-version such as `v1.2.3`.
    DashVersion,
    /// A dash followed by `Build n`.
    DashBuild,
    /// A dash followed by a revision tag such as `r34045`.
    DashRevision,
    /// A dotted revision tag such as `.r49909`.
    DotRevision,
    /// A revision tag after plain whitespace.
    WsRevision,
    /// A dash followed by a `d.m.yyyy` date.
    DashDate,
    /// A dash followed by a `yyyymmdd_hhmm-n` stamp.
    DashStamp,
    /// A dash or colon followed by a common edition name and `Edition`.
    DashEdition,
    /// A comma followed by a common edition name and `Edition`.
    CommaEdition,
    /// `+` and everything after it (bonus-content clauses).
    PlusTail,
    /// A parenthetical annotation.
    Paren,
    /// A dash followed by a platform name.
    DashPlatform,
    /// A trailing platform name after whitespace.
    EndPlatform,
    /// `build n` after plain whitespace.
    WsBuildNum,
    /// A dash followed by `build n`.
    DashBuildNum,
    /// A dash followed by `Hotfix n`.
    DashHotfix,
    /// A trailing `Release`, with or without a dash.
    EndRelease,
    /// A trailing `Data Pack n.m`.
    EndDataPack,
    /// A dash followed by a repacker label, to the end.
    DashRepacker,
    /// A dash followed by a rarer edition name and `Edition`.
    RareEdition,
}

/// Where the match of `r` starting at `i` ends, if `r` matches there.
pub open spec fn rule_end(r: Rule, s: Seq<char>, i: int) -> Option<int> {
    match r {
        Rule::SlashTail => if 0 <= i && i < s.len() && s[i] == '/' {
            Some(s.len() as int)
        } else {
            None
        },
        Rule::CommaVersion => if 0 <= i && i < s.len() && s[i] == ',' {
            let j = skip_ws(s, i + 1);
            if j + 1 < s.len() && s[j] == 'v' && is_digit(s[j + 1]) {
                Some(s.len() as int)
            } else {
                None
            }
        } else {
            None
        },
        Rule::CommaBuild => if 0 <= i && i < s.len() && s[i] == ',' {
            let j = skip_ws(s, i + 1);
            match word_ws(s, j, "Build"@) {
                Some(k) => if k < s.len() && is_digit(s[k]) {
                    Some(s.len() as int)
                } else {
                    None
                },
                None => None,
            }
        } else {
            None
        },
        Rule::DashVersion => match dash_prefix(s, i) {
            Some(d) => if d + 1 < s.len() && s[d] == 'v' && is_digit(s[d + 1]) {
                Some(skip_dot_digits(s, skip_digits(s, d + 1)))
            } else {
                None
            },
            None => None,
        },
        Rule::DashBuild => match dash_prefix(s, i) {
            Some(d) => match word_ws(s, d, "Build"@) {
                Some(k) => if k < s.len() && is_digit(s[k]) {
                    Some(skip_digits(s, k))
                } else {
                    None
                },
                None => None,
            },
            None => None,
        },
        Rule::DashRevision => match dash_prefix(s, i) {
            Some(d) => if d + 1 < s.len() && s[d] == 'r' && is_digit(s[d + 1]) {
                Some(skip_digits(s, d + 1))
            } else {
                None
            },
            None => None,
        },
        Rule::DotRevision => if 0 <= i && i + 2 < s.len() && s[i] == '.' && s[i + 1] == 'r'
            && is_digit(s[i + 2]) {
            Some(skip_digits(s, i + 2))
        } else {
            None
        },
        Rule::WsRevision => {
            let j = skip_ws(s, i);
            if j > i && j + 1 < s.len() && s[j] == 'r' && is_digit(s[j + 1]) {
                Some(skip_digits(s, j + 1))
            } else {
                None
            }
        },
        Rule::DashDate => match dash_prefix(s, i) {
            Some(d) => {
                let j = skip_digits(s, d);
                if 1 <= j - d <= 2 && j < s.len() && s[j] == '.' {
                    let j2 = skip_digits(s, j + 1);
                    if 1 <= j2 - (j + 1) <= 2 && j2 < s.len() && s[j2] == '.' {
                        if skip_digits(s, j2 + 1) - (j2 + 1) >= 4 {
                            Some(j2 + 5)
                        } else {
                            None
                        }
                    } else {
                        None
                    }
                } else {
                    None
                }
            },
            None => None,
        },
        Rule::DashStamp => match dash_prefix(s, i) {
            Some(d) => if skip_digits(s, d) - d >= 8 && d + 8 < s.len() && s[d + 8] == '_'
                && skip_digits(s, d + 9) - (d + 9) >= 4 && d + 13 < s.len() && s[d + 13] == '-'
                && d + 14 < s.len() && is_digit(s[d + 14]) {
                Some(skip_digits(s, d + 14))
            } else {
                None
            },
            None => None,
        },
        Rule::DashEdition => match dash_colon_prefix(s, i) {
            Some(d) => edition_tail(s, d),
            None => None,
        },
        Rule::CommaEdition => if 0 <= i && i < s.len() && s[i] == ',' {
            edition_tail(s, skip_ws(s, i + 1))
        } else {
            None
        },
        Rule::PlusTail => {
            let j = skip_ws(s, i);
            if 0 <= i && j < s.len() && s[j] == '+' {
                Some(s.len() as int)
            } else {
                None
            }
        },
        Rule::Paren => {
            let j = skip_ws(s, i);
            if 0 <= i && j < s.len() && s[j] == '(' {
                match crate::text::spec_find_char(s, ')', j + 1) {
                    Some(k) => Some(k + 1),
                    None => None,
                }
            } else {
                None
            }
        },
        Rule::DashPlatform => match dash_prefix(s, i) {
            Some(d) => platform_word_end(s, d),
            None => None,
        },
        Rule::EndPlatform => {
            let j = skip_ws(s, i);
            if j > i {
                match platform_word_end(s, j) {
                    Some(e) => if e == s.len() {
                        Some(e)
                    } else {
                        None
                    },
                    None => None,
                }
            } else {
                None
            }
        },
        Rule::WsBuildNum => {
            let j = skip_ws(s, i);
            if j > i {
                match word_ws(s, j, "build"@) {
                    Some(k) => if k < s.len() && is_digit(s[k]) {
                        Some(skip_digits(s, k))
                    } else {
                        None
                    },
                    None => None,
                }
            } else {
                None
            }
        },
        Rule::DashBuildNum => match dash_prefix(s, i) {
            Some(d) => match word_ws(s, d, "build"@) {
                Some(k) => if k < s.len() && is_digit(s[k]) {
                    Some(skip_digits(s, k))
                } else {
                    None
                },
                None => None,
            },
            None => None,
        },
        Rule::DashHotfix => match dash_prefix(s, i) {
            Some(d) => match word_ws(s, d, "Hotfix"@) {
                Some(k) => if k < s.len() && is_digit(s[k]) {
                    Some(skip_digits(s, k))
                } else {
                    None
                },
                None => None,
            },
            None => None,
        },
        Rule::EndRelease => {
            let j = skip_ws(s, i);
            let j2 = if 0 <= j && j < s.len() && is_dash(s[j]) {
                skip_ws(s, j + 1)
            } else {
                j
            };
            if 0 <= i && matches_at(s, "Release"@, j2) && j2 + 7 == s.len() {
                Some(s.len() as int)
            } else {
                None
            }
        },
        Rule::EndDataPack => {
            let j = skip_ws(s, i);
            if 0 <= i {
                match word_ws(s, j, "Data"@) {
                    Some(a) => match word_ws(s, a, "Pack"@) {
                        Some(b) => if b < s.len() && is_digit(s[b]) {
                            let m = skip_digits(s, b);
                            if m + 1 < s.len() && s[m] == '.' && is_digit(s[m + 1])
                                && skip_digits(s, m + 1) == s.len() {
                                Some(s.len() as int)
                            } else {
                                None
                            }
                        } else {
                            None
                        },
                        None => None,
                    },
                    None => None,
                }
            } else {
                None
            }
        },
        Rule::DashRepacker => match dash_prefix(s, i) {
            Some(d) => match repacker_word_end(s, d) {
                Some(_) => Some(s.len() as int),
                None => None,
            },
            None => None,
        },
        Rule::RareEdition => match dash_prefix(s, i) {
            Some(d) => rare_edition_end(s, d),
            None => None,
        },
    }
}

proof fn lemma_ed_plain(s: Seq<char>, j: int, w: Seq<char>)
    ensures
        ed_plain(s, j, w) matches Some(e) ==> j <= e <= s.len(),
{
    if matches_at(s, w, j) {
        lemma_ws_word_end(s, j + w.len() as int, "Edition"@);
    }
}

proof fn lemma_collector_end(s: Seq<char>, j: int)
    ensures
        collector_end(s, j) matches Some(k) ==> j <= k <= s.len(),
        collector_apos_end(s, j) matches Some(k) ==> j <= k <= s.len(),
{
}

proof fn lemma_goty_end(s: Seq<char>, j: int, any_case: bool)
    ensures
        goty_end(s, j, any_case) matches Some(e) ==> j <= e <= s.len(),
{
    reveal_strlit("the");
    reveal_strlit("The");
    lemma_word_ws(s, j, "Game"@);
    if let Some(a) = word_ws(s, j, "Game"@) {
        lemma_word_ws(s, a, "of"@);
        if let Some(b) = word_ws(s, a, "of"@) {
            if matches_at(s, "the"@, b) || (any_case && matches_at(s, "The"@, b)) {
                lemma_ws_word_end(s, b + 3, "Year"@);
            }
        }
    }
}

proof fn lemma_directors_cut_end(s: Seq<char>, j: int)
    ensures
        directors_cut_end(s, j) matches Some(k) ==> j <= k <= s.len(),
{
}

proof fn lemma_common_edition_end(s: Seq<char>, j: int)
    requires
        0 <= j <= s.len(),
    ensures
        common_edition_end(s, j) matches Some(e) ==> j <= e <= s.len(),
{
    lemma_ed_plain(s, j, "Deluxe"@);
    lemma_ed_plain(s, j, "Premium"@);
    lemma_ed_plain(s, j, "Ultimate"@);
    lemma_ed_plain(s, j, "Gold"@);
    lemma_ed_plain(s, j, "Special"@);
    lemma_collector_end(s, j);
    if let Some(k) = collector_end(s, j) {
        lemma_ws_word_end(s, k, "Edition"@);
    }
    lemma_goty_end(s, j, false);
    if let Some(k) = goty_end(s, j, false) {
        lemma_ws_word_end(s, k, "Edition"@);
    }
}

proof fn lemma_edition_tail(s: Seq<char>, d: int)
    requires
        0 <= d <= s.len(),
    ensures
        edition_tail(s, d) matches Some(e) ==> d <= e <= s.len(),
{
    lemma_word_ws(s, d, "Digital"@);
    lemma_common_edition_end(s, d);
    if let Some(d2) = word_ws(s, d, "Digital"@) {
        lemma_common_edition_end(s, d2);
    }
}

proof fn lemma_rare_edition_end(s: Seq<char>, j: int)
    requires
        0 <= j <= s.len(),
    ensures
        rare_edition_end(s, j) matches Some(e) ==> j <= e <= s.len(),
{
    lemma_ed_plain(s, j, "Jackdaw"@);
    lemma_ed_plain(s, j, "Supporter"@);
    lemma_ed_plain(s, j, "Anniversary"@);
    lemma_ed_plain(s, j, "Limited"@);
    lemma_collector_end(s, j);
    if let Some(k) = collector_apos_end(s, j) {
        lemma_ws_word_end(s, k, "Edition"@);
    }
    lemma_ed_plain(s, j, "Special"@);
    lemma_ed_plain(s, j, "Enhanced"@);
    lemma_ed_plain(s, j, "Definitive"@);
    lemma_ed_plain(s, j, "Remastered"@);
    lemma_directors_cut_end(s, j);
    if let Some(k) = directors_cut_end(s, j) {
        lemma_ws_word_end(s, k, "Edition"@);
    }
    lemma_goty_end(s, j, true);
    if let Some(k) = goty_end(s, j, true) {
        lemma_ws_word_end(s, k, "Edition"@);
    }
    lemma_word_ws(s, j, "Master"@);
    if let Some(a) = word_ws(s, j, "Master"@) {
        if let Some(k) = lit_end(s, a, "Crafted"@) {
            lemma_ws_word_end(s, k, "Edition"@);
        }
    }
    lemma_word_ws(s, j, "Khaos"@);
    if let Some(a) = word_ws(s, j, "Khaos"@) {
        lemma_word_ws(s, a, "Reigns"@);
        if let Some(b) = word_ws(s, a, "Reigns"@) {
            if let Some(k) = lit_end(s, b, "Kollection"@) {
                lemma_ws_word_end(s, k, "Edition"@);
            }
        }
    }
}

proof fn lemma_platform_word_end(s: Seq<char>, j: int)
    ensures
        platform_word_end(s, j) matches Some(e) ==> j <= e <= s.len(),
        repacker_word_end(s, j) matches Some(e) ==> j <= e <= s.len(),
{
}

/// Every rule match consumes at least one character and stays inside `s`.
pub proof fn lemma_rule_end_bounds(r: Rule, s: Seq<char>, i: int)
    requires
        0 <= i <= s.len(),
    ensures
        rule_end(r, s, i) matches Some(e) ==> i < e <= s.len(),
{
    lemma_skip_ws(s, i);
    lemma_dash_prefix(s, i);
    match r {
        Rule::SlashTail => {},
        Rule::CommaVersion => {},
        Rule::CommaBuild => {},
        Rule::DashVersion => {
            if let Some(d) = dash_prefix(s, i) {
                if d + 1 < s.len() && s[d] == 'v' && is_digit(s[d + 1]) {
                    lemma_skip_digits(s, d + 1);
                    lemma_skip_dot_digits(s, skip_digits(s, d + 1));
                }
            }
        },
        Rule::DashBuild => {
            if let Some(d) = dash_prefix(s, i) {
                lemma_word_ws(s, d, "Build"@);
                if let Some(k) = word_ws(s, d, "Build"@) {
                    lemma_skip_digits(s, k);
                }
            }
        },
        Rule::DashRevision => {
            if let Some(d) = dash_prefix(s, i) {
                if d + 1 < s.len() {
                    lemma_skip_digits(s, d + 1);
                }
            }
        },
        Rule::DotRevision => {
            if i + 2 < s.len() {
                lemma_skip_digits(s, i + 2);
            }
        },
        Rule::WsRevision => {
            let j = skip_ws(s, i);
            if j + 1 < s.len() {
                lemma_skip_digits(s, j + 1);
            }
        },
        Rule::DashDate => {
            if let Some(d) = dash_prefix(s, i) {
                lemma_skip_digits(s, d);
                let j = skip_digits(s, d);
                if j < s.len() {
                    lemma_skip_digits(s, j + 1);
                    let j2 = skip_digits(s, j + 1);
                    if j2 < s.len() {
                        lemma_skip_digits(s, j2 + 1);
                    }
                }
            }
        },
        Rule::DashStamp => {
            if let Some(d) = dash_prefix(s, i) {
                if d + 14 < s.len() {
                    lemma_skip_digits(s, d + 14);
                }
            }
        },
        Rule::DashEdition => {
            if let Some(d) = dash_colon_prefix(s, i) {
                lemma_edition_tail(s, d);
            }
        },
        Rule::CommaEdition => {
            if i < s.len() && s[i] == ',' {
                lemma_skip_ws(s, i + 1);
                lemma_edition_tail(s, skip_ws(s, i + 1));
            }
        },
        Rule::PlusTail => {},
        Rule::Paren => {
            let j = skip_ws(s, i);
            if j < s.len() && s[j] == '(' {
                crate::text::lemma_spec_find_char(s, ')', j + 1);
            }
        },
        Rule::DashPlatform => {
            if let Some(d) = dash_prefix(s, i) {
                lemma_platform_word_end(s, d);
            }
        },
        Rule::EndPlatform => {
            lemma_platform_word_end(s, skip_ws(s, i));
        },
        Rule::WsBuildNum => {
            let j = skip_ws(s, i);
            lemma_word_ws(s, j, "build"@);
            if let Some(k) = word_ws(s, j, "build"@) {
                lemma_skip_digits(s, k);
            }
        },
        Rule::DashBuildNum => {
            if let Some(d) = dash_prefix(s, i) {
                lemma_word_ws(s, d, "build"@);
                if let Some(k) = word_ws(s, d, "build"@) {
                    lemma_skip_digits(s, k);
                }
            }
        },
        Rule::DashHotfix => {
            if let Some(d) = dash_prefix(s, i) {
                lemma_word_ws(s, d, "Hotfix"@);
                if let Some(k) = word_ws(s, d, "Hotfix"@) {
                    lemma_skip_digits(s, k);
                }
            }
        },
        Rule::EndRelease => {
            let j = skip_ws(s, i);
            if j < s.len() && is_dash(s[j]) {
                lemma_skip_ws(s, j + 1);
            }
        },
        Rule::EndDataPack => {
            let j = skip_ws(s, i);
            lemma_word_ws(s, j, "Data"@);
            if let Some(a) = word_ws(s, j, "Data"@) {
                lemma_word_ws(s, a, "Pack"@);
            }
        },
        Rule::DashRepacker => {},
        Rule::RareEdition => {
            if let Some(d) = dash_prefix(s, i) {
                lemma_rare_edition_end(s, d);
            }
        },
    }
}

/// First position at or after `p` where rule `r` matches.
pub open spec fn first_match_from(r: Rule, s: Seq<char>, p: int) -> Option<int>
    decreases s.len() - p + 1,
{
    if p < 0 || p >= s.len() {
        None
    } else if rule_end(r, s, p) is Some {
        Some(p)
    } else {
        first_match_from(r, s, p + 1)
    }
}

pub proof fn lemma_first_match(r: Rule, s: Seq<char>, p: int)
    ensures
        first_match_from(r, s, p) matches Some(i) ==> {
            &&& p <= i < s.len()
            &&& rule_end(r, s, i) is Some
        },
    decreases s.len() - p + 1,
{
    if 0 <= p < s.len() && rule_end(r, s, p) is None {
        lemma_first_match(r, s, p + 1);
    }
}

/// Deletes every match of `r`, scanning left to right from `p`.
pub open spec fn apply_rule(r: Rule, s: Seq<char>, p: int) -> Seq<char>
    decreases s.len(),
{
    match first_match_from(r, s, p) {
        None => s,
        Some(i) => {
            proof {
                lemma_first_match(r, s, p);
                lemma_rule_end_bounds(r, s, i);
            }
            let e = rule_end(r, s, i).unwrap();
            apply_rule(r, s.subrange(0, i) + s.subrange(e, s.len() as int), i)
        },
    }
}

/// A changed string is strictly shorter: the rules only delete.
pub proof fn lemma_apply_rule_shrinks(r: Rule, s: Seq<char>, p: int)
    ensures
        apply_rule(r, s, p) == s || apply_rule(r, s, p).len() < s.len(),
    decreases s.len(),
{
    match first_match_from(r, s, p) {
        None => {},
        Some(i) => {
            lemma_first_match(r, s, p);
            lemma_rule_end_bounds(r, s, i);
            let e = rule_end(r, s, i).unwrap();
            let t = s.subrange(0, i) + s.subrange(e, s.len() as int);
            lemma_apply_rule_shrinks(r, t, i);
        },
    }
}

/// Whitespace that is already a plain space stays a plain space.
pub open spec fn no_odd_ws(s: Seq<char>) -> bool {
    forall|k: int| 0 <= k < s.len() && is_ws(#[trigger] s[k]) ==> s[k] == ' '
}

pub proof fn lemma_apply_rule_ws(r: Rule, s: Seq<char>, p: int)
    requires
        no_odd_ws(s),
    ensures
        no_odd_ws(apply_rule(r, s, p)),
    decreases s.len(),
{
    match first_match_from(r, s, p) {
        None => {},
        Some(i) => {
            lemma_first_match(r, s, p);
            lemma_rule_end_bounds(r, s, i);
            let e = rule_end(r, s, i).unwrap();
            let t = s.subrange(0, i) + s.subrange(e, s.len() as int);
            assert forall|k: int| 0 <= k < t.len() && is_ws(#[trigger] t[k]) implies t[k]
                == ' ' by {
                if k < i {
                    assert(t[k] == s[k]);
                } else {
                    assert(t[k] == s[k - i + e]);
                }
            }
            lemma_apply_rule_ws(r, t, i);
        },
    }
}

/// Every whitespace character replaced by a plain space.
pub open spec fn premap(s: Seq<char>) -> Seq<char> {
    Seq::new(
        s.len(),
        |k: int|
            if is_ws(s[k]) {
                ' '
            } else {
                s[k]
            },
    )
}

pub proof fn lemma_premap(s: Seq<char>)
    ensures
        no_odd_ws(premap(s)),
        no_odd_ws(s) ==> premap(s) == s,
{
    if no_odd_ws(s) {
        assert(premap(s) =~= s);
    }
}

/// Runs of whitespace collapsed: of each run only the last character stays.
pub open spec fn collapse_ws(s: Seq<char>) -> Seq<char>
    decreases s.len(),
{
    if s.len() == 0 {
        s
    } else if s.len() >= 2 && is_ws(s[0]) && is_ws(s[1]) {
        collapse_ws(s.drop_first())
    } else {
        seq![s[0]] + collapse_ws(s.drop_first())
    }
}

/// Punctuation the normalizer strips from the end of a title.
pub open spec fn is_trailing_junk(c: char) -> bool {
    c == ',' || c == ':' || c == '-' || c == '\u{2013}' || is_ws(c)
}

/// Trailing commas, colons, dashes and whitespace removed.
pub open spec fn strip_trailing_junk(s: Seq<char>) -> Seq<char>
    decreases s.len(),
{
    if s.len() > 0 && is_trailing_junk(s[s.len() - 1]) {
        strip_trailing_junk(s.drop_last())
    } else {
        s
    }
}

/// The cleanup that ends every sweep: trim, collapse whitespace runs, strip
/// trailing punctuation.
pub open spec fn tidy(s: Seq<char>) -> Seq<char> {
    strip_trailing_junk(collapse_ws(trim_trailing(trim_leading(s))))
}

proof fn lemma_trim_leading(s: Seq<char>)
    ensures
        trim_leading(s) == s || trim_leading(s).len() < s.len(),
        trim_leading(s).len() <= s.len(),
        no_odd_ws(s) ==> no_odd_ws(trim_leading(s)),
    decreases s.len(),
{
    if s.len() > 0 && is_ws(s[0]) {
        lemma_trim_leading(s.drop_first());
    }
}

proof fn lemma_trim_trailing(s: Seq<char>)
    ensures
        trim_trailing(s) == s || trim_trailing(s).len() < s.len(),
        trim_trailing(s).len() <= s.len(),
        no_odd_ws(s) ==> no_odd_ws(trim_trailing(s)),
    decreases s.len(),
{
    if s.len() > 0 && is_ws(s[s.len() - 1]) {
        lemma_trim_trailing(s.drop_last());
    }
}

proof fn lemma_collapse_ws(s: Seq<char>)
    ensures
        collapse_ws(s) == s || collapse_ws(s).len() < s.len(),
        collapse_ws(s).len() <= s.len(),
        no_odd_ws(s) ==> no_odd_ws(collapse_ws(s)),
    decreases s.len(),
{
    if s.len() == 0 {
    } else if s.len() >= 2 && is_ws(s[0]) && is_ws(s[1]) {
        lemma_collapse_ws(s.drop_first());
    } else {
        lemma_collapse_ws(s.drop_first());
        if collapse_ws(s.drop_first()) == s.drop_first() {
            assert(seq![s[0]] + s.drop_first() =~= s);
        }
        let t = seq![s[0]] + collapse_ws(s.drop_first());
        if no_odd_ws(s) {
            assert forall|k: int| 0 <= k < t.len() && is_ws(#[trigger] t[k]) implies t[k]
                == ' ' by {
                if k > 0 {
                    assert(t[k] == collapse_ws(s.drop_first())[k - 1]);
                }
            }
        }
    }
}

proof fn lemma_strip_trailing_junk(s: Seq<char>)
    ensures
        strip_trailing_junk(s) == s || strip_trailing_junk(s).len() < s.len(),
        strip_trailing_junk(s).len() <= s.len(),
        no_odd_ws(s) ==> no_odd_ws(strip_trailing_junk(s)),
    decreases s.len(),
{
    if s.len() > 0 && is_trailing_junk(s[s.len() - 1]) {
        lemma_strip_trailing_junk(s.drop_last());
    }
}

proof fn lemma_tidy(s: Seq<char>)
    ensures
        tidy(s) == s || tidy(s).len() < s.len(),
        tidy(s).len() <= s.len(),
        no_odd_ws(s) ==> no_odd_ws(tidy(s)),
{
    lemma_trim_leading(s);
    lemma_trim_trailing(trim_leading(s));
    lemma_collapse_ws(trim_trailing(trim_leading(s)));
    lemma_strip_trailing_junk(collapse_ws(trim_trailing(trim_leading(s))));
}

/// The substitution rules in the order they run.
pub open spec fn rule_order() -> Seq<Rule> {
    seq![
        Rule::SlashTail,
        Rule::CommaVersion,
        Rule::CommaBuild,
        Rule::DashVersion,
        Rule::DashBuild,
        Rule::DashRevision,
        Rule::DotRevision,
        Rule::WsRevision,
        Rule::DashDate,
        Rule::DashStamp,
        Rule::DashEdition,
        Rule::CommaEdition,
        Rule::PlusTail,
        Rule::Paren,
        Rule::DashPlatform,
        Rule::EndPlatform,
        Rule::WsBuildNum,
        Rule::DashBuildNum,
        Rule::DashHotfix,
        Rule::EndRelease,
        Rule::EndDataPack,
        Rule::DashRepacker,
        Rule::RareEdition,
    ]
}

/// The given rules applied to `s`, in order.
pub open spec fn apply_rules(s: Seq<char>, rs: Seq<Rule>) -> Seq<char>
    decreases rs.len(),
{
    if rs.len() == 0 {
        s
    } else {
        apply_rules(apply_rule(rs[0], s, 0), rs.drop_first())
    }
}

proof fn lemma_apply_rule_stage(r: Rule, s: Seq<char>, p: int)
    ensures
        apply_rule(r, s, p) == s || apply_rule(r, s, p).len() < s.len(),
        apply_rule(r, s, p).len() <= s.len(),
        no_odd_ws(s) ==> no_odd_ws(apply_rule(r, s, p)),
{
    lemma_apply_rule_shrinks(r, s, p);
    if no_odd_ws(s) {
        lemma_apply_rule_ws(r, s, p);
    }
}

pub proof fn lemma_apply_rules(s: Seq<char>, rs: Seq<Rule>)
    ensures
        apply_rules(s, rs) == s || apply_rules(s, rs).len() < s.len(),
        apply_rules(s, rs).len() <= s.len(),
        no_odd_ws(s) ==> no_odd_ws(apply_rules(s, rs)),
    decreases rs.len(),
{
    if rs.len() > 0 {
        lemma_apply_rule_stage(rs[0], s, 0);
        lemma_apply_rules(apply_rule(rs[0], s, 0), rs.drop_first());
    }
}

/// One sweep: every substitution rule in order, then the cleanup.
pub open spec fn sweep(s: Seq<char>) -> Seq<char> {
    tidy(apply_rules(s, rule_order()))
}

pub proof fn lemma_sweep(s: Seq<char>)
    ensures
        sweep(s) == s || sweep(s).len() < s.len(),
        sweep(s).len() <= s.len(),
        no_odd_ws(s) ==> no_odd_ws(sweep(s)),
{
    lemma_apply_rules(s, rule_order());
    lemma_tidy(apply_rules(s, rule_order()));
}

/// Sweeps repeated until the title stops changing.
pub open spec fn normalize_from(s: Seq<char>) -> Seq<char>
    decreases s.len(),
{
    let t = sweep(s);
    if t == s {
        s
    } else {
        proof {
            lemma_sweep(s);
        }
        normalize_from(t)
    }
}

/// What `clean_game_title` returns.
pub open spec fn spec_clean_title(s: Seq<char>) -> Seq<char> {
    normalize_from(premap(s))
}

/// The normal form is a fixed point of the sweep.
pub proof fn lemma_normalize_fixpoint(s: Seq<char>)
    ensures
        sweep(normalize_from(s)) == normalize_from(s),
    decreases s.len(),
{
    let t = sweep(s);
    if t != s {
        lemma_sweep(s);
        lemma_normalize_fixpoint(t);
    }
}

proof fn lemma_normalize_ws(s: Seq<char>)
    requires
        no_odd_ws(s),
    ensures
        no_odd_ws(normalize_from(s)),
    decreases s.len(),
{
    let t = sweep(s);
    if t != s {
        lemma_sweep(s);
        lemma_normalize_ws(t);
    }
}

/// A title is clean when the normalizer has nothing to do on it: all its
/// whitespace is plain spaces and one sweep of the rules leaves it unchanged.
pub open spec fn is_clean_title(s: Seq<char>) -> bool {
    no_odd_ws(s) && sweep(s) == s
}

/// Normalizing is idempotent: a second pass over an already normalized title
/// returns it unchanged.
pub proof fn lemma_clean_title_idempotent(s: Seq<char>)
    ensures
        spec_clean_title(spec_clean_title(s)) == spec_clean_title(s),
{
    lemma_premap(s);
    let n = normalize_from(premap(s));
    lemma_normalize_ws(premap(s));
    lemma_premap(n);
    lemma_normalize_fixpoint(premap(s));
}

/// An already clean title comes back unchanged.
pub proof fn lemma_clean_title_of_clean(s: Seq<char>)
    requires
        is_clean_title(s),
    ensures
        spec_clean_title(s) == s,
{
    lemma_premap(s);
}


/// An `Option<usize>` result agrees with an `Option<int>` specification.
pub open spec fn opt_agrees(r: Option<usize>, sp: Option<int>) -> bool {
    match r {
        Some(x) => sp == Some(x as int),
        None => sp is None,
    }
}

fn is_dash_e(c: char) -> (r: bool)
    ensures
        r == is_dash(c),
{
    c == '-' || c == '\u{2013}'
}

fn skip_dot_digits_e(s: &Vec<char>, k: usize) -> (r: usize)
    requires
        k <= s@.len(),
    ensures
        r as int == skip_dot_digits(s@, k as int),
        k <= r <= s@.len(),
{
    let mut j = k;
    loop
        invariant
            k <= j <= s@.len(),
            skip_dot_digits(s@, k as int) == skip_dot_digits(s@, j as int),
        decreases s@.len() - j,
    {
        if j < s.len() && s[j] == '.' && j + 1 < s.len() && is_digit_e(s[j + 1]) {
            let j2 = skip_digits_e(s, j + 1);
            proof {
                lemma_skip_digits(s@, j + 1);
            }
            j = j2;
        } else {
            return j;
        }
    }
}

fn dash_prefix_e(s: &Vec<char>, i: usize) -> (r: Option<usize>)
    requires
        i <= s@.len(),
    ensures
        opt_agrees(r, dash_prefix(s@, i as int)),
        r matches Some(d) ==> i < d <= s@.len(),
{
    let j = skip_ws_e(s, i);
    if j < s.len() && is_dash_e(s[j]) {
        Some(skip_ws_e(s, j + 1))
    } else {
        None
    }
}

fn dash_colon_prefix_e(s: &Vec<char>, i: usize) -> (r: Option<usize>)
    requires
        i <= s@.len(),
    ensures
        opt_agrees(r, dash_colon_prefix(s@, i as int)),
        r matches Some(d) ==> i < d <= s@.len(),
{
    let j = skip_ws_e(s, i);
    if j < s.len() && (is_dash_e(s[j]) || s[j] == ':') {
        Some(skip_ws_e(s, j + 1))
    } else {
        None
    }
}

fn word_ws_e(s: &Vec<char>, i: usize, w: &str) -> (r: Option<usize>)
    ensures
        opt_agrees(r, word_ws(s@, i as int, w@)),
        r matches Some(j) ==> j <= s@.len(),
{
    let n = s.len();
    if crate::text::eq_at(s, w, i) {
        let wl = w.unicode_len();
        let j = skip_ws_e(s, i + wl);
        if j > i + wl {
            Some(j)
        } else {
            None
        }
    } else {
        None
    }
}

fn lit_end_e(s: &Vec<char>, j: usize, w: &str) -> (r: Option<usize>)
    ensures
        opt_agrees(r, lit_end(s@, j as int, w@)),
        r matches Some(k) ==> k <= s@.len(),
{
    let n = s.len();
    if crate::text::eq_at(s, w, j) {
        Some(j + w.unicode_len())
    } else {
        None
    }
}

fn ws_word_end_e(s: &Vec<char>, k: usize, w: &str) -> (r: Option<usize>)
    requires
        k <= s@.len(),
    ensures
        opt_agrees(r, ws_word_end(s@, k as int, w@)),
        r matches Some(e) ==> e <= s@.len(),
{
    let n = s.len();
    let m = skip_ws_e(s, k);
    if m > k && crate::text::eq_at(s, w, m) {
        Some(m + w.unicode_len())
    } else {
        None
    }
}

fn ed_plain_e(s: &Vec<char>, j: usize, w: &str) -> (r: Option<usize>)
    ensures
        opt_agrees(r, ed_plain(s@, j as int, w@)),
{
    match lit_end_e(s, j, w) {
        Some(k) => ws_word_end_e(s, k, "Edition"),
        None => None,
    }
}

fn collector_end_e(s: &Vec<char>, j: usize) -> (r: Option<usize>)
    ensures
        opt_agrees(r, collector_end(s@, j as int)),
        r matches Some(k) ==> k <= s@.len(),
{
    match lit_end_e(s, j, "Collector") {
        Some(k) => {
            let k1 = if k < s.len() && s[k] == '\'' {
                k + 1
            } else {
                k
            };
            let k2 = if k1 < s.len() && s[k1] == 's' {
                k1 + 1
            } else {
                k1
            };
            Some(k2)
        },
        None => None,
    }
}

fn collector_apos_end_e(s: &Vec<char>, j: usize) -> (r: Option<usize>)
    ensures
        opt_agrees(r, collector_apos_end(s@, j as int)),
        r matches Some(k) ==> k <= s@.len(),
{
    match lit_end_e(s, j, "Collector'") {
        Some(k) => Some(
            if k < s.len() && s[k] == 's' {
                k + 1
            } else {
                k
            },
        ),
        None => None,
    }
}

fn goty_end_e(s: &Vec<char>, j: usize, any_case: bool) -> (r: Option<usize>)
    ensures
        opt_agrees(r, goty_end(s@, j as int, any_case)),
        r matches Some(e) ==> e <= s@.len(),
{
    match word_ws_e(s, j, "Game") {
        Some(a) => match word_ws_e(s, a, "of") {
            Some(b) => {
                proof {
                    reveal_strlit("the");
                    reveal_strlit("The");
                }
                let n = s.len();
                let the_end: Option<usize> = if crate::text::eq_at(s, "the", b) || (any_case
                    && crate::text::eq_at(s, "The", b)) {
                    Some(b + 3)
                } else {
                    None
                };
                match the_end {
                    Some(c) => ws_word_end_e(s, c, "Year"),
                    None => None,
                }
            },
            None => None,
        },
        None => None,
    }
}

fn directors_cut_end_e(s: &Vec<char>, j: usize) -> (r: Option<usize>)
    ensures
        opt_agrees(r, directors_cut_end(s@, j as int)),
        r matches Some(k) ==> k <= s@.len(),
{
    match lit_end_e(s, j, "Director'") {
        Some(k) => {
            let k1 = if k < s.len() && s[k] == 's' {
                k + 1
            } else {
                k
            };
            lit_end_e(s, k1, " Cut")
        },
        None => None,
    }
}

fn common_edition_end_e(s: &Vec<char>, j: usize) -> (r: Option<usize>)
    ensures
        opt_agrees(r, common_edition_end(s@, j as int)),
{
    if let Some(e) = ed_plain_e(s, j, "Deluxe") {
        return Some(e);
    }
    if let Some(e) = ed_plain_e(s, j, "Premium") {
        return Some(e);
    }
    if let Some(e) = ed_plain_e(s, j, "Ultimate") {
        return Some(e);
    }
    if let Some(e) = ed_plain_e(s, j, "Gold") {
        return Some(e);
    }
    if let Some(e) = ed_plain_e(s, j, "Special") {
        return Some(e);
    }
    if let Some(k) = collector_end_e(s, j) {
        if let Some(e) = ws_word_end_e(s, k, "Edition") {
            return Some(e);
        }
    }
    match goty_end_e(s, j, false) {
        Some(k) => ws_word_end_e(s, k, "Edition"),
        None => None,
    }
}

fn edition_tail_e(s: &Vec<char>, d: usize) -> (r: Option<usize>)
    ensures
        opt_agrees(r, edition_tail(s@, d as int)),
{
    match word_ws_e(s, d, "Digital") {
        Some(d2) => match common_edition_end_e(s, d2) {
            Some(e) => Some(e),
            None => common_edition_end_e(s, d),
        },
        None => common_edition_end_e(s, d),
    }
}

fn rare_edition_end_e(s: &Vec<char>, j: usize) -> (r: Option<usize>)
    ensures
        opt_agrees(r, rare_edition_end(s@, j as int)),
{
    if let Some(e) = ed_plain_e(s, j, "Jackdaw") {
        return Some(e);
    }
    if let Some(e) = ed_plain_e(s, j, "Supporter") {
        return Some(e);
    }
    if let Some(e) = ed_plain_e(s, j, "Anniversary") {
        return Some(e);
    }
    if let Some(e) = ed_plain_e(s, j, "Limited") {
        return Some(e);
    }
    if let Some(k) = collector_apos_end_e(s, j) {
        if let Some(e) = ws_word_end_e(s, k, "Edition") {
            return Some(e);
        }
    }
    if let Some(e) = ed_plain_e(s, j, "Special") {
        return Some(e);
    }
    if let Some(e) = ed_plain_e(s, j, "Enhanced") {
        return Some(e);
    }
    if let Some(e) = ed_plain_e(s, j, "Definitive") {
        return Some(e);
    }
    if let Some(e) = ed_plain_e(s, j, "Remastered") {
        return Some(e);
    }
    if let Some(k) = directors_cut_end_e(s, j) {
        if let Some(e) = ws_word_end_e(s, k, "Edition") {
            return Some(e);
        }
    }
    if let Some(k) = goty_end_e(s, j, true) {
        if let Some(e) = ws_word_end_e(s, k, "Edition") {
            return Some(e);
        }
    }
    if let Some(a) = word_ws_e(s, j, "Master") {
        if let Some(k) = lit_end_e(s, a, "Crafted") {
            if let Some(e) = ws_word_end_e(s, k, "Edition") {
                return Some(e);
            }
        }
    }
    rare_khaos_part_e(s, j)
}

fn rare_khaos_part_e(s: &Vec<char>, j: usize) -> (r: Option<usize>)
    ensures
        opt_agrees(r, rare_edition_khaos(s@, j as int)),
{
    match word_ws_e(s, j, "Khaos") {
        Some(a) => match word_ws_e(s, a, "Reigns") {
            Some(b) => match lit_end_e(s, b, "Kollection") {
                Some(k) => ws_word_end_e(s, k, "Edition"),
                None => None,
            },
            None => None,
        },
        None => None,
    }
}

fn platform_word_end_e(s: &Vec<char>, j: usize) -> (r: Option<usize>)
    ensures
        opt_agrees(r, platform_word_end(s@, j as int)),
        r matches Some(e) ==> e <= s@.len(),
{
    if let Some(e) = lit_end_e(s, j, "GOG") {
        return Some(e);
    }
    if let Some(e) = lit_end_e(s, j, "Steam") {
        return Some(e);
    }
    if let Some(e) = lit_end_e(s, j, "MS") {
        return Some(e);
    }
    if let Some(e) = lit_end_e(s, j, "Epic") {
        return Some(e);
    }
    if let Some(e) = lit_end_e(s, j, "Origin") {
        return Some(e);
    }
    if let Some(e) = lit_end_e(s, j, "Uplay") {
        return Some(e);
    }
    lit_end_e(s, j, "Battle.net")
}

fn repacker_word_end_e(s: &Vec<char>, j: usize) -> (r: Option<usize>)
    ensures
        opt_agrees(r, repacker_word_end(s@, j as int)),
{
    if let Some(e) = lit_end_e(s, j, "Monkey") {
        return Some(e);
    }
    if let Some(e) = lit_end_e(s, j, "Turtle") {
        return Some(e);
    }
    if let Some(e) = lit_end_e(s, j, "Compressed") {
        return Some(e);
    }
    lit_end_e(s, j, "BetterRepack")
}

/// Where rule `r` matches at `i`, executably.
fn rule_end_e(r: Rule, s: &Vec<char>, i: usize) -> (res: Option<usize>)
    requires
        i <= s@.len(),
    ensures
        opt_agrees(res, rule_end(r, s@, i as int)),
{
    match r {
        Rule::SlashTail => if i < s.len() && s[i] == '/' {
            Some(s.len())
        } else {
            None
        },
        Rule::CommaVersion => if i < s.len() && s[i] == ',' {
            let j = skip_ws_e(s, i + 1);
            if j < s.len() && s[j] == 'v' && j + 1 < s.len() && is_digit_e(s[j + 1]) {
                Some(s.len())
            } else {
                None
            }
        } else {
            None
        },
        Rule::CommaBuild => if i < s.len() && s[i] == ',' {
            let j = skip_ws_e(s, i + 1);
            match word_ws_e(s, j, "Build") {
                Some(k) => if k < s.len() && is_digit_e(s[k]) {
                    Some(s.len())
                } else {
                    None
                },
                None => None,
            }
        } else {
            None
        },
        Rule::DashVersion => match dash_prefix_e(s, i) {
            Some(d) => if d < s.len() && s[d] == 'v' && d + 1 < s.len() && is_digit_e(
                s[d + 1],
            ) {
                let a = skip_digits_e(s, d + 1);
                Some(skip_dot_digits_e(s, a))
            } else {
                None
            },
            None => None,
        },
        Rule::DashBuild => match dash_prefix_e(s, i) {
            Some(d) => match word_ws_e(s, d, "Build") {
                Some(k) => if k < s.len() && is_digit_e(s[k]) {
                    Some(skip_digits_e(s, k))
                } else {
                    None
                },
                None => None,
            },
            None => None,
        },
        Rule::DashRevision => match dash_prefix_e(s, i) {
            Some(d) => if d < s.len() && s[d] == 'r' && d + 1 < s.len() && is_digit_e(
                s[d + 1],
            ) {
                Some(skip_digits_e(s, d + 1))
            } else {
                None
            },
            None => None,
        },
        Rule::DotRevision => if i < s.len() && s[i] == '.' && i + 1 < s.len() && s[i + 1] == 'r'
            && i + 2 < s.len() && is_digit_e(s[i + 2]) {
            Some(skip_digits_e(s, i + 2))
        } else {
            None
        },
        Rule::WsRevision => {
            let j = skip_ws_e(s, i);
            if j > i && j < s.len() && s[j] == 'r' && j + 1 < s.len() && is_digit_e(s[j + 1]) {
                Some(skip_digits_e(s, j + 1))
            } else {
                None
            }
        },
        Rule::DashDate => match dash_prefix_e(s, i) {
            Some(d) => {
                let j = skip_digits_e(s, d);
                if 1 <= j - d && j - d <= 2 && j < s.len() && s[j] == '.' {
                    let j2 = skip_digits_e(s, j + 1);
                    if 1 <= j2 - (j + 1) && j2 - (j + 1) <= 2 && j2 < s.len() && s[j2] == '.' {
                        let j3 = skip_digits_e(s, j2 + 1);
                        if j3 - (j2 + 1) >= 4 {
                            Some(j2 + 5)
                        } else {
                            None
                        }
                    } else {
                        None
                    }
                } else {
                    None
                }
            },
            None => None,
        },
        Rule::DashStamp => match dash_prefix_e(s, i) {
            Some(d) => {
                let r1 = skip_digits_e(s, d);
                if r1 - d >= 8 && d + 8 < s.len() && s[d + 8] == '_' {
                    let r2 = skip_digits_e(s, d + 9);
                    if r2 - (d + 9) >= 4 && d + 13 < s.len() && s[d + 13] == '-' && d + 14
                        < s.len() && is_digit_e(s[d + 14]) {
                        Some(skip_digits_e(s, d + 14))
                    } else {
                        None
                    }
                } else {
                    None
                }
            },
            None => None,
        },
        Rule::DashEdition => match dash_colon_prefix_e(s, i) {
            Some(d) => edition_tail_e(s, d),
            None => None,
        },
        Rule::CommaEdition => if i < s.len() && s[i] == ',' {
            let j = skip_ws_e(s, i + 1);
            edition_tail_e(s, j)
        } else {
            None
        },
        Rule::PlusTail => {
            let j = skip_ws_e(s, i);
            if j < s.len() && s[j] == '+' {
                Some(s.len())
            } else {
                None
            }
        },
        Rule::Paren => {
            let n = s.len();
            let j = skip_ws_e(s, i);
            if j < n && s[j] == '(' {
                match crate::text::find_char_from(s, ')', j + 1) {
                    Some(k) => Some(k + 1),
                    None => None,
                }
            } else {
                None
            }
        },
        Rule::DashPlatform => match dash_prefix_e(s, i) {
            Some(d) => platform_word_end_e(s, d),
            None => None,
        },
        Rule::EndPlatform => {
            let j = skip_ws_e(s, i);
            if j > i {
                match platform_word_end_e(s, j) {
                    Some(e) => if e == s.len() {
                        Some(e)
                    } else {
                        None
                    },
                    None => None,
                }
            } else {
                None
            }
        },
        Rule::WsBuildNum => {
            let j = skip_ws_e(s, i);
            if j > i {
                match word_ws_e(s, j, "build") {
                    Some(k) => if k < s.len() && is_digit_e(s[k]) {
                        Some(skip_digits_e(s, k))
                    } else {
                        None
                    },
                    None => None,
                }
            } else {
                None
            }
        },
        Rule::DashBuildNum => match dash_prefix_e(s, i) {
            Some(d) => match word_ws_e(s, d, "build") {
                Some(k) => if k < s.len() && is_digit_e(s[k]) {
                    Some(skip_digits_e(s, k))
                } else {
                    None
                },
                None => None,
            },
            None => None,
        },
        Rule::DashHotfix => match dash_prefix_e(s, i) {
            Some(d) => match word_ws_e(s, d, "Hotfix") {
                Some(k) => if k < s.len() && is_digit_e(s[k]) {
                    Some(skip_digits_e(s, k))
                } else {
                    None
                },
                None => None,
            },
            None => None,
        },
        Rule::EndRelease => {
            let j = skip_ws_e(s, i);
            let j2 = if j < s.len() && is_dash_e(s[j]) {
                skip_ws_e(s, j + 1)
            } else {
                j
            };
            if s.len() >= 7 && j2 == s.len() - 7 && crate::text::eq_at(s, "Release", j2) {
                proof {
                    assert(matches_at(s@, "Release"@, j2 as int) && j2 + 7 == s@.len());
                }
                Some(s.len())
            } else {
                proof {
                    if matches_at(s@, "Release"@, j2 as int) && j2 + 7 == s@.len() {
                        reveal_strlit("Release");
                    }
                }
                None
            }
        },
        Rule::EndDataPack => {
            let j = skip_ws_e(s, i);
            match word_ws_e(s, j, "Data") {
                Some(a) => match word_ws_e(s, a, "Pack") {
                    Some(b) => if b < s.len() && is_digit_e(s[b]) {
                        let m = skip_digits_e(s, b);
                        if m < s.len() && s[m] == '.' && m + 1 < s.len() && is_digit_e(s[m + 1])
                            && skip_digits_e(s, m + 1) == s.len() {
                            Some(s.len())
                        } else {
                            None
                        }
                    } else {
                        None
                    },
                    None => None,
                },
                None => None,
            }
        },
        Rule::DashRepacker => match dash_prefix_e(s, i) {
            Some(d) => match repacker_word_end_e(s, d) {
                Some(_) => Some(s.len()),
                None => None,
            },
            None => None,
        },
        Rule::RareEdition => match dash_prefix_e(s, i) {
            Some(d) => rare_edition_end_e(s, d),
            None => None,
        },
    }
}


proof fn lemma_apply_rule_none_step(r: Rule, s: Seq<char>, p: int)
    requires
        0 <= p < s.len(),
        rule_end(r, s, p) is None,
    ensures
        apply_rule(r, s, p) == apply_rule(r, s, p + 1),
{
    assert(first_match_from(r, s, p) == first_match_from(r, s, p + 1));
}

/// `s` with the range `[i, e)` removed.
fn delete_range(s: &Vec<char>, i: usize, e: usize) -> (r: Vec<char>)
    requires
        i <= e <= s@.len(),
    ensures
        r@ == s@.subrange(0, i as int) + s@.subrange(e as int, s@.len() as int),
{
    let mut r: Vec<char> = Vec::new();
    let mut k: usize = 0;
    while k < i
        invariant
            k <= i <= e <= s@.len(),
            r@ == s@.subrange(0, k as int),
        decreases i - k,
    {
        r.push(s[k]);
        proof {
            assert(r@ =~= s@.subrange(0, k + 1));
        }
        k += 1;
    }
    let mut m: usize = e;
    while m < s.len()
        invariant
            i <= e <= m <= s@.len(),
            r@ == s@.subrange(0, i as int) + s@.subrange(e as int, m as int),
        decreases s@.len() - m,
    {
        r.push(s[m]);
        proof {
            assert(r@ =~= s@.subrange(0, i as int) + s@.subrange(e as int, m + 1));
        }
        m += 1;
    }
    proof {
        assert(r@ =~= s@.subrange(0, i as int) + s@.subrange(e as int, s@.len() as int));
    }
    r
}

/// Deletes every match of `r` in `s`, scanning left to right.
fn apply_rule_e(r: Rule, s: &Vec<char>) -> (res: Vec<char>)
    ensures
        res@ == apply_rule(r, s@, 0),
{
    let mut v = sub_vec(s, 0, s.len());
    let mut i: usize = 0;
    proof {
        assert(s@.subrange(0, s@.len() as int) =~= s@);
    }
    loop
        invariant
            i <= v@.len(),
            apply_rule(r, v@, i as int) == apply_rule(r, s@, 0),
        decreases v@.len() - i, v@.len(),
    {
        if i >= v.len() {
            proof {
                assert(apply_rule(r, v@, i as int) == v@);
            }
            return v;
        }
        match rule_end_e(r, &v, i) {
            Some(e) => {
                proof {
                    lemma_rule_end_bounds(r, v@, i as int);
                    assert(first_match_from(r, v@, i as int) == Some(i as int));
                }
                let t = delete_range(&v, i, e);
                proof {
                    assert(apply_rule(r, v@, i as int) == apply_rule(r, t@, i as int));
                }
                v = t;
            },
            None => {
                proof {
                    lemma_apply_rule_none_step(r, v@, i as int);
                }
                i += 1;
            },
        }
    }
}

/// The rule order as a vector.
fn rules_vec() -> (r: Vec<Rule>)
    ensures
        r@ == rule_order(),
{
    let mut v: Vec<Rule> = Vec::new();
    v.push(Rule::SlashTail);
    v.push(Rule::CommaVersion);
    v.push(Rule::CommaBuild);
    v.push(Rule::DashVersion);
    v.push(Rule::DashBuild);
    v.push(Rule::DashRevision);
    v.push(Rule::DotRevision);
    v.push(Rule::WsRevision);
    v.push(Rule::DashDate);
    v.push(Rule::DashStamp);
    v.push(Rule::DashEdition);
    v.push(Rule::CommaEdition);
    v.push(Rule::PlusTail);
    v.push(Rule::Paren);
    v.push(Rule::DashPlatform);
    v.push(Rule::EndPlatform);
    v.push(Rule::WsBuildNum);
    v.push(Rule::DashBuildNum);
    v.push(Rule::DashHotfix);
    v.push(Rule::EndRelease);
    v.push(Rule::EndDataPack);
    v.push(Rule::DashRepacker);
    v.push(Rule::RareEdition);
    proof {
        assert(v@ =~= rule_order());
    }
    v
}

/// Every rule applied once, in order.
#[verifier::rlimit(100)]
fn run_rules_e(s: Vec<char>) -> (res: Vec<char>)
    ensures
        res@ == apply_rules(s@, rule_order()),
{
    let ghost orig = s@;
    let rules = rules_vec();
    let mut v = s;
    let mut idx: usize = 0;
    proof {
        assert(rule_order().skip(0) =~= rule_order());
    }
    while idx < rules.len()
        invariant
            idx <= rules@.len(),
            rules@ == rule_order(),
            apply_rules(v@, rule_order().skip(idx as int)) == apply_rules(orig, rule_order()),
        decreases rules@.len() - idx,
    {
        proof {
            let rest = rule_order().skip(idx as int);
            assert(rest[0] == rule_order()[idx as int]);
            assert(rest.drop_first() =~= rule_order().skip(idx + 1));
            assert(apply_rules(v@, rest) == apply_rules(
                apply_rule(rest[0], v@, 0),
                rest.drop_first(),
            ));
        }
        v = apply_rule_e(rules[idx], &v);
        idx += 1;
    }
    proof {
        assert(rule_order().skip(rules@.len() as int) =~= Seq::<Rule>::empty());
        assert(apply_rules(v@, Seq::<Rule>::empty()) == v@);
    }
    v
}

fn is_trailing_junk_e(c: char) -> (r: bool)
    ensures
        r == is_trailing_junk(c),
{
    c == ',' || c == ':' || c == '-' || c == '\u{2013}' || is_ws_e(c)
}

fn strip_trailing_junk_e(s: &Vec<char>) -> (r: Vec<char>)
    ensures
        r@ == strip_trailing_junk(s@),
{
    let mut b: usize = s.len();
    proof {
        assert(s@.subrange(0, s@.len() as int) =~= s@);
    }
    while b > 0 && is_trailing_junk_e(s[b - 1])
        invariant
            b <= s@.len(),
            strip_trailing_junk(s@) == strip_trailing_junk(s@.subrange(0, b as int)),
        decreases b,
    {
        proof {
            assert(s@.subrange(0, b as int).drop_last() =~= s@.subrange(0, b - 1));
        }
        b -= 1;
    }
    proof {
        assert(s@.subrange(0, b as int) == strip_trailing_junk(s@.subrange(0, b as int)));
    }
    sub_vec(s, 0, b)
}

fn collapse_ws_e(s: &Vec<char>) -> (r: Vec<char>)
    ensures
        r@ == collapse_ws(s@),
{
    let mut r: Vec<char> = Vec::new();
    let mut k: usize = 0;
    proof {
        assert(s@.subrange(0, s@.len() as int) =~= s@);
        assert(Seq::<char>::empty() + collapse_ws(s@) =~= collapse_ws(s@));
    }
    while k < s.len()
        invariant
            k <= s@.len(),
            collapse_ws(s@) == r@ + collapse_ws(s@.subrange(k as int, s@.len() as int)),
        decreases s@.len() - k,
    {
        let ghost rest = s@.subrange(k as int, s@.len() as int);
        proof {
            assert(rest.drop_first() =~= s@.subrange(k + 1, s@.len() as int));
        }
        if is_ws_e(s[k]) && k + 1 < s.len() && is_ws_e(s[k + 1]) {
            proof {
                assert(collapse_ws(rest) == collapse_ws(rest.drop_first()));
            }
        } else {
            let ghost r0 = r@;
            r.push(s[k]);
            proof {
                assert(collapse_ws(rest) == seq![rest[0]] + collapse_ws(rest.drop_first()));
                assert(r0 + (seq![s@[k as int]] + collapse_ws(rest.drop_first())) =~= r@
                    + collapse_ws(rest.drop_first()));
            }
        }
        k += 1;
    }
    proof {
        assert(s@.subrange(k as int, s@.len() as int) =~= Seq::<char>::empty());
        assert(r@ + collapse_ws(Seq::<char>::empty()) =~= r@);
    }
    r
}

/// Every whitespace character replaced by a plain space.
fn premap_e(s: &Vec<char>) -> (r: Vec<char>)
    ensures
        r@ == premap(s@),
{
    let mut r: Vec<char> = Vec::new();
    let mut k: usize = 0;
    while k < s.len()
        invariant
            k <= s@.len(),
            r@ == premap(s@).subrange(0, k as int),
        decreases s@.len() - k,
    {
        if is_ws_e(s[k]) {
            r.push(' ');
        } else {
            r.push(s[k]);
        }
        proof {
            assert(r@ =~= premap(s@).subrange(0, k + 1));
        }
        k += 1;
    }
    proof {
        assert(r@ =~= premap(s@));
    }
    r
}

/// One sweep of all rules plus cleanup.
fn sweep_e(s: Vec<char>) -> (res: Vec<char>)
    ensures
        res@ == sweep(s@),
{
    let v = run_rules_e(s);
    let v = trim_leading_e(&v);
    let v = trim_trailing_e(&v);
    let v = collapse_ws_e(&v);
    strip_trailing_junk_e(&v)
}

/// Cleans a raw release title: strips version numbers, build and revision
/// tags, dates, edition and platform suffixes, parentheticals, bonus-content
/// clauses and repacker credits, and normalizes whitespace and trailing
/// punctuation. Total: it never fails, and an already clean title is
/// returned unchanged.
pub fn clean_game_title(title: &str) -> (r: String)
    ensures
        r@ == spec_clean_title(title@),
{
    let cs = crate::text::chars_of(title);
    let mut v = premap_e(&cs);
    loop
        invariant
            normalize_from(v@) == spec_clean_title(title@),
        decreases v@.len(),
    {
        let t = sweep_e(sub_vec(&v, 0, v.len()));
        proof {
            assert(v@.subrange(0, v@.len() as int) =~= v@);
        }
        if vec_eq(&t, &v) {
            proof {
                assert(normalize_from(v@) == v@);
            }
            return crate::text::string_from_chars(&v);
        }
        proof {
            lemma_sweep(v@);
            assert(normalize_from(v@) == normalize_from(t@));
        }
        v = t;
    }
}

} // verus!


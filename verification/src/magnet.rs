//! Magnet-link helpers: pulling the BitTorrent info hash out of a magnet
//! URI.

use vstd::prelude::*;
use crate::text::chars_of;
use crate::text::eq_at;
use crate::text::find_char_from;
use crate::text::find_from;
use crate::text::lemma_spec_find_char;
use crate::text::matches_at;
use crate::text::spec_find;
use crate::text::spec_find_char;
use crate::text::string_from_chars;
use crate::text::sub_vec;

verus! {

/// The info hash named by the `&`-separated parts of `m` from `i` on: the
/// text after the first `xt=urn:btih:` marker of the first part that
/// carries one, up to the next marker inside that part. A part that is the
/// marker's own field yields everything after the marker.
pub open spec fn spec_info_hash_parts(m: Seq<char>, i: int) -> Option<Seq<char>>
    decreases m.len() - i + 1,
{
    if i < 0 || i > m.len() {
        None
    } else {
        let e = match spec_find_char(m, '&', i) {
            Some(p) => p,
            None => m.len() as int,
        };
        let part = m.subrange(i, e);
        if matches_at(part, "xt=urn:btih:"@, 0) {
            Some(part.skip(12))
        } else {
            match spec_find(part, "xt=urn:btih:"@, 0) {
                Some(q) => {
                    let q2 = match spec_find(part, "xt=urn:btih:"@, q + 12) {
                        Some(x) => x,
                        None => part.len() as int,
                    };
                    Some(part.subrange(q + 12, q2))
                },
                None => if e >= m.len() {
                    None
                } else {
                    proof {
                        lemma_spec_find_char(m, '&', i);
                    }
                    spec_info_hash_parts(m, e + 1)
                },
            }
        }
    }
}

/// The info hash of a magnet URI, when the text is a magnet URI and one of
/// its fields carries the `xt=urn:btih:` marker.
pub open spec fn spec_info_hash(m: Seq<char>) -> Option<Seq<char>> {
    if matches_at(m, "magnet:?"@, 0) {
        spec_info_hash_parts(m, 0)
    } else {
        None
    }
}

fn info_hash_from(m: &Vec<char>, i: usize) -> (r: Option<String>)
    requires
        i <= m@.len(),
    ensures
        match r {
            Some(h) => spec_info_hash_parts(m@, i as int) == Some(h@),
            None => spec_info_hash_parts(m@, i as int) is None,
        },
    decreases m@.len() - i,
{
    let e = match find_char_from(m, '&', i) {
        Some(p) => p,
        None => m.len(),
    };
    proof {
        lemma_spec_find_char(m@, '&', i as int);
    }
    let part = sub_vec(m, i, e);
    if eq_at(&part, "xt=urn:btih:", 0) {
        proof {
            reveal_strlit("xt=urn:btih:");
            assert(part@.skip(12) =~= part@.subrange(12, part@.len() as int));
        }
        let h = sub_vec(&part, 12, part.len());
        return Some(string_from_chars(&h));
    }
    match find_from(&part, "xt=urn:btih:", 0) {
        Some(q) => {
            proof {
                reveal_strlit("xt=urn:btih:");
                crate::text::lemma_spec_find_some(part@, "xt=urn:btih:"@, 0);
            }
            proof {
                assert(matches_at(part@, "xt=urn:btih:"@, q as int));
                assert("xt=urn:btih:"@.len() == 12);
                assert(q + 12 <= part@.len());
            }
            let q2 = match find_from(&part, "xt=urn:btih:", q + 12) {
                Some(x) => x,
                None => part.len(),
            };
            proof {
                crate::text::lemma_spec_find_some(part@, "xt=urn:btih:"@, q + 12);
            }
            let h = sub_vec(&part, q + 12, q2);
            Some(string_from_chars(&h))
        },
        None => {
            if e >= m.len() {
                None
            } else {
                info_hash_from(m, e + 1)
            }
        },
    }
}

/// The BitTorrent info hash of a magnet URI: the value of its
/// `xt=urn:btih:` field, or nothing when the text is not a magnet URI or
/// carries no such field.
pub fn extract_info_hash(magnet: &str) -> (r: Option<String>)
    ensures
        match r {
            Some(h) => spec_info_hash(magnet@) == Some(h@),
            None => spec_info_hash(magnet@) is None,
        },
{
    let v = chars_of(magnet);
    if !eq_at(&v, "magnet:?", 0) {
        return None;
    }
    info_hash_from(&v, 0)
}

} // verus!

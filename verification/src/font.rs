//! Font descriptors for the measurement labels of a diagram, parsed from a
//! stored description string.
//!
//! A description is a family name, optionally followed by a space and a
//! point size of one to four decimal digits: `"Sans 12"` names family
//! `"Sans"` at size 12, `"Sans Bold"` names family `"Sans Bold"` with the
//! size left unset (written 0). Surrounding spaces are ignored. A string
//! that is empty or all spaces describes no font and is rejected.

use vstd::prelude::*;

use crate::text::all_dec;
use crate::text::dec_value;
use crate::text::trim;
use crate::text::trim_end;
use crate::text::trim_start;
use crate::text::dec_u32;
use crate::text::lemma_trim_end;
use crate::text::lemma_trim_start_first;
use crate::text::trim_str;

verus! {

/// A font for the rendering layer: a family name and a point size, with 0
/// standing for "no size given".
#[derive(Clone, Debug, PartialEq, Eq)]
pub struct FontDescriptor {
    pub family: String,
    pub size: u32,
}

/// Index of the last space in `s`, or -1 when `s` has none.
pub open spec fn last_space(s: Seq<char>) -> int
    decreases s.len(),
{
    if s.len() == 0 {
        -1
    } else if s[s.len() - 1] == ' ' {
        s.len() - 1
    } else {
        last_space(s.subrange(0, s.len() - 1))
    }
}

/// The characters after position `p` of `t` form a size: one to four
/// decimal digits.
pub open spec fn size_suffix_ok(t: Seq<char>, p: int) -> bool {
    let suf = t.subrange(p + 1, t.len() as int);
    1 <= suf.len() <= 4 && all_dec(suf)
}

/// The font described by `s`, as a (family, size) pair, or `None` when `s`
/// is empty or all spaces. When the trimmed text ends in a space-separated
/// size suffix, the suffix is the size and what precedes it (minus the
/// separating spaces) is the family; otherwise the whole trimmed text is
/// the family, with the size unset.
pub open spec fn font_of(s: Seq<char>) -> Option<(Seq<char>, u32)> {
    let t = trim(s);
    if t.len() == 0 {
        None
    } else {
        let p = last_space(t);
        if p >= 0 && size_suffix_ok(t, p) {
            Some(
                (trim_end(t.subrange(0, p)), dec_value(t.subrange(p + 1, t.len() as int)) as u32),
            )
        } else {
            Some((t, 0))
        }
    }
}

/// Parses a stored font description string.
pub fn parse_font(s: &str) -> (r: Option<FontDescriptor>)
    ensures
        match r {
            Some(f) => font_of(s@) == Some((f.family@, f.size)),
            None => font_of(s@) is None,
        },
{
    let t = trim_str(s);
    let n = t.unicode_len();
    if n == 0 {
        return None;
    }
    proof {
        lemma_trim_start_first(s@);
        lemma_trim_end(trim_start(s@));
        assert(t@.subrange(0, n as int) =~= t@);
    }
    // Scan backwards over the trailing run of non-space characters.
    let mut j: usize = n;
    while j > 0 && t.get_char(j - 1) != ' '
        invariant
            n == t@.len(),
            j <= n,
            last_space(t@) == last_space(t@.subrange(0, j as int)),
        decreases j,
    {
        proof {
            let sub = t@.subrange(0, j as int);
            assert(sub.subrange(0, sub.len() - 1) =~= t@.subrange(0, j as int - 1));
        }
        j -= 1;
    }
    if j == 0 {
        // No space at all: the whole text is the family and no size is given.
        return Some(FontDescriptor { family: String::from_str(t), size: 0 });
    }
    let p = j - 1;
    proof {
        assert(last_space(t@) == p as int);
    }
    let suf_len = n - j;
    if suf_len == 0 || suf_len > 4 {
        // The text ends in a space; with the end trimmed this cannot happen,
        // or the suffix is too long to be a size.
        return Some(FontDescriptor { family: String::from_str(t), size: 0 });
    }
    let suf = t.substring_char(j, n);
    match dec_u32(suf) {
        None => Some(FontDescriptor { family: String::from_str(t), size: 0 }),
        Some(v) => {
            let head = t.substring_char(0, p);
            let family = String::from_str(trim_str(head));
            proof {
                // `head` starts with a non-space (it is a prefix of the
                // trimmed text), so trimming it only strips its tail.
                if head@.len() > 0 {
                    assert(head@[0] == t@[0]);
                }
                assert(trim_start(head@) == head@);
                assert(trim(head@) == trim_end(head@));
            }
            Some(FontDescriptor { family, size: v })
        },
    }
}

} // verus!

//! Recognising a recording folder's name: somewhere in it a date stamp
//! `YYYY[.]MM[.]DD`, a separator, then at least one more character on the
//! same line (an optional streamer name and separator, and the title).
//! The date is not read from the folder: each file carries its own.

use vstd::prelude::*;
use crate::grammar::{date_end, date_stamp_at, day_start, has_digits, is_sep, is_sep_char, skip_dot_at};

verus! {

/// A recording folder's name matches at `i`.
pub open spec fn dir_match_at(s: Seq<char>, i: int) -> bool {
    &&& date_stamp_at(s, i)
    &&& date_end(s, i) + 1 < s.len()
    &&& is_sep(s[date_end(s, i)])
    &&& s[date_end(s, i) + 1] != '\n'
}

/// A recording folder's name matches somewhere.
pub open spec fn dir_matches(s: Seq<char>) -> bool {
    exists|i: int| 0 <= i < s.len() && #[trigger] dir_match_at(s, i)
}

/// The shape of a recording folder's name.
#[derive(Clone, Copy, Debug)]
pub struct DirPattern;

/// The one pattern that recording folders follow.
pub const DIR_PATTERN: DirPattern = DirPattern;

fn matches_at(v: &Vec<char>, i: usize) -> (r: bool)
    requires
        i < v@.len(),
    ensures
        r == dir_match_at(v@, i as int),
{
    let n = v.len();
    if !has_digits(v, i, 4) {
        return false;
    }
    let ms = skip_dot_at(v, i + 4);
    if !has_digits(v, ms, 2) {
        return false;
    }
    let ds = skip_dot_at(v, ms + 2);
    assert(ds == day_start(v@, i as int));
    if !has_digits(v, ds, 2) {
        return false;
    }
    let de = ds + 2;
    de < n - 1 && is_sep_char(v[de]) && v[de + 1] != '\n'
}

impl DirPattern {
    /// Whether `name` is the name of a recording folder.
    pub fn is_match(&self, name: &str) -> (r: bool)
        ensures
            r == dir_matches(name@),
    {
        let v = crate::text::chars_of(name);
        let mut i: usize = 0;
        while i < v.len()
            invariant
                v@ == name@,
                i <= v@.len(),
                forall|j: int| 0 <= j < i ==> !#[trigger] dir_match_at(v@, j),
            decreases v@.len() - i,
        {
            if matches_at(&v, i) {
                return true;
            }
            i = i + 1;
        }
        false
    }
}

} // verus!

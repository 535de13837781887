//! The shapes of the names: character classes, the date stamp that leads a
//! name, and the scanners that find them.

use vstd::prelude::*;

verus! {

pub open spec fn is_digit(c: char) -> bool {
    '0' <= c <= '9'
}

/// White space as Unicode defines it (the `White_Space` property).
pub open spec fn is_space(c: char) -> bool {
    ||| c == ' '
    ||| '\t' <= c <= '\r'
    ||| c == '\u{85}'
    ||| c == '\u{a0}'
    ||| c == '\u{1680}'
    ||| '\u{2000}' <= c <= '\u{200a}'
    ||| c == '\u{2028}'
    ||| c == '\u{2029}'
    ||| c == '\u{202f}'
    ||| c == '\u{205f}'
    ||| c == '\u{3000}'
}

/// What may stand between the parts of a name: a hyphen or white space.
pub open spec fn is_sep(c: char) -> bool {
    c == '-' || is_space(c)
}

/// `n` decimal digits start at `i`.
pub open spec fn digits_at(s: Seq<char>, i: int, n: int) -> bool {
    &&& 0 <= i
    &&& i + n <= s.len()
    &&& forall|j: int| i <= j < i + n ==> is_digit(#[trigger] s[j])
}

/// The number that a run of decimal digits spells.
pub open spec fn digits_value(s: Seq<char>) -> int
    decreases s.len(),
{
    if s.len() == 0 {
        0
    } else {
        digits_value(s.drop_last()) * 10 + (s.last() as u32 - '0' as u32)
    }
}

/// `i`, moved past one '.' if one stands there.
pub open spec fn skip_dot(s: Seq<char>, i: int) -> int {
    if 0 <= i < s.len() && s[i] == '.' {
        i + 1
    } else {
        i
    }
}

/// Where the month of a date stamp at `i` starts: after four digits of year
/// and an optional '.'.
pub open spec fn month_start(s: Seq<char>, i: int) -> int {
    skip_dot(s, i + 4)
}

/// Where the day of a date stamp at `i` starts.
pub open spec fn day_start(s: Seq<char>, i: int) -> int {
    skip_dot(s, month_start(s, i) + 2)
}

/// Where a date stamp at `i` ends.
pub open spec fn date_end(s: Seq<char>, i: int) -> int {
    day_start(s, i) + 2
}

/// A date stamp `YYYY[.]MM[.]DD` stands at `i`.
pub open spec fn date_stamp_at(s: Seq<char>, i: int) -> bool {
    &&& digits_at(s, i, 4)
    &&& digits_at(s, month_start(s, i), 2)
    &&& digits_at(s, day_start(s, i), 2)
}

/// The last index below `n` that holds `c`, or -1.
pub open spec fn last_index_before(s: Seq<char>, c: char, n: int) -> int
    decreases n,
{
    if n <= 0 {
        -1
    } else if n - 1 < s.len() && s[n - 1] == c {
        n - 1
    } else {
        last_index_before(s, c, n - 1)
    }
}

/// No line break in `s[lo..hi]`.
pub open spec fn no_newline(s: Seq<char>, lo: int, hi: int) -> bool {
    forall|j: int| lo <= j < hi ==> #[trigger] s[j] != '\n'
}

/// `last_index_before` finds an index below `n` that holds `c`, or -1.
pub proof fn lemma_last_index_range(s: Seq<char>, c: char, n: int)
    requires
        0 <= n,
    ensures
        -1 <= last_index_before(s, c, n) < n,
        last_index_before(s, c, n) >= 0 ==> last_index_before(s, c, n) < s.len() && s[last_index_before(s, c, n)] == c,
    decreases n,
{
    if n > 0 {
        lemma_last_index_range(s, c, n - 1);
    }
}

/// Nothing between the last `c` below `n` and `n` holds `c`.
pub proof fn lemma_last_index_after(s: Seq<char>, c: char, n: int, j: int)
    requires
        last_index_before(s, c, n) < j < n,
        n <= s.len(),
    ensures
        s[j] != c,
    decreases n,
{
    if n > 0 && s[n - 1] != c && j < n - 1 {
        lemma_last_index_after(s, c, n - 1, j);
    }
}

/// Where no `c` stands in `s[lo..hi]`, the last `c` below `hi` is the last
/// below `lo`.
pub proof fn lemma_last_index_skip(s: Seq<char>, c: char, lo: int, hi: int)
    requires
        0 <= lo <= hi <= s.len(),
        forall|j: int| lo <= j < hi ==> s[j] != c,
    ensures
        last_index_before(s, c, hi) == last_index_before(s, c, lo),
    decreases hi - lo,
{
    if hi > lo {
        lemma_last_index_skip(s, c, lo, hi - 1);
    }
}

pub fn is_digit_char(c: char) -> (r: bool)
    ensures
        r == is_digit(c),
{
    '0' <= c && c <= '9'
}

pub fn is_space_char(c: char) -> (r: bool)
    ensures
        r == is_space(c),
{
    c == ' ' || ('\t' <= c && c <= '\r') || c == '\u{85}' || c == '\u{a0}'
        || c == '\u{1680}' || ('\u{2000}' <= c && c <= '\u{200a}') || c == '\u{2028}' || c
        == '\u{2029}' || c == '\u{202f}' || c == '\u{205f}' || c == '\u{3000}'
}

pub fn is_sep_char(c: char) -> (r: bool)
    ensures
        r == is_sep(c),
{
    c == '-' || is_space_char(c)
}

pub fn has_digits(v: &Vec<char>, i: usize, n: usize) -> (r: bool)
    ensures
        r == digits_at(v@, i as int, n as int),
{
    if i > v.len() || n > v.len() - i {
        return false;
    }
    let mut k: usize = 0;
    while k < n
        invariant
            i + n <= v.len(),
            k <= n,
            forall|j: int| i <= j < i + k ==> is_digit(#[trigger] v@[j]),
        decreases n - k,
    {
        if !is_digit_char(v[i + k]) {
            return false;
        }
        k = k + 1;
    }
    true
}

pub fn skip_dot_at(v: &Vec<char>, i: usize) -> (r: usize)
    requires
        i <= v@.len(),
    ensures
        r == skip_dot(v@, i as int),
{
    let n = v.len();
    if i < n && v[i] == '.' {
        i + 1
    } else {
        i
    }
}

/// The value of `n` (at most four) digits at `i`.
pub fn read_number(v: &Vec<char>, i: usize, n: usize) -> (r: u32)
    requires
        n <= 4,
        digits_at(v@, i as int, n as int),
    ensures
        r == digits_value(v@.subrange(i as int, i + n)),
        r < 10000,
{
    let mut acc: u32 = 0;
    let mut k: usize = 0;
    while k < n
        invariant
            k <= n <= 4,
            i + n <= v.len(),
            digits_at(v@, i as int, n as int),
            acc == digits_value(v@.subrange(i as int, i + k)),
            acc < if k == 0 {
                1int
            } else if k == 1 {
                10
            } else if k == 2 {
                100
            } else if k == 3 {
                1000
            } else {
                10000
            },
        decreases n - k,
    {
        let c = v[i + k];
        assert(is_digit(v@[i + k]));
        let d: u32 = (c as u32) - ('0' as u32);
        let ghost t = v@.subrange(i as int, i + k + 1);
        assert(t.drop_last() =~= v@.subrange(i as int, i + k));
        assert(t.last() == c);
        acc = acc * 10 + d;
        k = k + 1;
    }
    acc
}

/// The last index below `n` that holds `c`.
pub fn find_last_before(v: &Vec<char>, c: char, n: usize) -> (r: Option<usize>)
    requires
        n <= v@.len(),
    ensures
        match r {
            Some(k) => k == last_index_before(v@, c, n as int) && k < n && v@[k as int] == c,
            None => last_index_before(v@, c, n as int) == -1,
        },
{
    let mut i: usize = n;
    while i > 0
        invariant
            i <= n <= v@.len(),
            last_index_before(v@, c, n as int) == last_index_before(v@, c, i as int),
        decreases i,
    {
        if v[i - 1] == c {
            return Some(i - 1);
        }
        i = i - 1;
    }
    None
}

/// No line break in `v[lo..hi]`.
pub fn newline_free(v: &Vec<char>, lo: usize, hi: usize) -> (r: bool)
    requires
        hi <= v@.len(),
    ensures
        r == no_newline(v@, lo as int, hi as int),
{
    let mut i: usize = lo;
    while i < hi
        invariant
            lo <= i,
            hi <= v@.len(),
            no_newline(v@, lo as int, i as int),
        decreases hi - i,
    {
        if v[i] == '\n' {
            return false;
        }
        i = i + 1;
    }
    true
}

} // verus!

//! Decoding a media file's name into its recording moment and title.
//!
//! A name reads `YYYY[.]MM[.]DD`, a separator, optionally a time stamp
//! `HHMMSS` and a separator, optionally an annotation in `【` `】`, then the
//! title, a '.' and the extension. A separator is a hyphen or white space.
//! The title may not be blank. Where no time stamp is given the recording is
//! taken to start at 20:00:00.

use vstd::prelude::*;
use crate::calendar::{Moment, valid_date, valid_time, date_exists, time_exists};
use crate::grammar::{
    date_end, date_stamp_at, day_start, digits_at, digits_value, find_last_before, has_digits,
    is_digit, is_sep, is_sep_char, is_space, is_space_char, last_index_before,
    lemma_last_index_after, lemma_last_index_range, lemma_last_index_skip, month_start,
    newline_free, no_newline, read_number, skip_dot, skip_dot_at,
};
use crate::text::{chars_of, substring};

verus! {

/// Why a file name gives no recording.
#[derive(Clone, Copy, Debug, PartialEq, Eq, Structural)]
pub enum ExtractError {
    /// The name does not have the shape of a recording's name.
    NameRejected,
    /// The date stamp names no calendar day.
    InvalidDate,
    /// The time stamp names no time of day.
    InvalidTime,
}

/// Index of the last '.' of the name, or -1: the extension follows it.
pub open spec fn last_dot(s: Seq<char>) -> int {
    last_index_before(s, '.', s.len() as int)
}

/// From `a` on, the name is an optional annotation, a non-empty title, a '.'
/// and a non-empty extension without '.'; annotation and title hold no line
/// break.
pub open spec fn tail_ok(s: Seq<char>, a: int) -> bool {
    &&& 0 <= a < last_dot(s)
    &&& last_dot(s) < s.len() - 1
    &&& no_newline(s, a, last_dot(s))
}

/// Where what follows the date stamp and its separator starts.
pub open spec fn rest_start(s: Seq<char>) -> int {
    date_end(s, 0) + 1
}

/// A time stamp and its separator follow the date, and the rest of the name
/// is well formed after them.
pub open spec fn has_time(s: Seq<char>) -> bool {
    let a = rest_start(s);
    &&& digits_at(s, a, 6)
    &&& a + 6 < s.len()
    &&& is_sep(s[a + 6])
    &&& tail_ok(s, a + 7)
}

/// Where the annotation or title starts.
pub open spec fn body_start(s: Seq<char>) -> int {
    if has_time(s) {
        rest_start(s) + 7
    } else {
        rest_start(s)
    }
}

/// The name has the shape of a recording's name.
pub open spec fn file_shape(s: Seq<char>) -> bool {
    &&& date_stamp_at(s, 0)
    &&& date_end(s, 0) < s.len()
    &&& is_sep(s[date_end(s, 0)])
    &&& tail_ok(s, body_start(s))
}

/// The closing `】` of the annotation: the last one that leaves a non-empty
/// annotation and a non-empty title; -1 if there is none.
pub open spec fn annotation_close(s: Seq<char>) -> int {
    let b = body_start(s);
    let k = last_index_before(s, '】', last_dot(s) - 1);
    if b < s.len() && s[b] == '【' && k >= b + 2 {
        k
    } else {
        -1
    }
}

/// Where the title starts: after the annotation if there is one.
pub open spec fn title_start(s: Seq<char>) -> int {
    if annotation_close(s) >= 0 {
        annotation_close(s) + 1
    } else {
        body_start(s)
    }
}

/// The title: from its start up to the last '.'.
pub open spec fn title_of(s: Seq<char>) -> Seq<char> {
    s.subrange(title_start(s), last_dot(s))
}

/// Every character is white space: nothing is left once trimmed.
pub open spec fn blank(t: Seq<char>) -> bool {
    forall|j: int| 0 <= j < t.len() ==> is_space(#[trigger] t[j])
}

/// A recording's name: the right shape, and a title that is not blank.
pub open spec fn recording_name(s: Seq<char>) -> bool {
    file_shape(s) && !blank(title_of(s))
}

pub open spec fn year_of(s: Seq<char>) -> int {
    digits_value(s.subrange(0, 4))
}

pub open spec fn month_of(s: Seq<char>) -> int {
    digits_value(s.subrange(month_start(s, 0), month_start(s, 0) + 2))
}

pub open spec fn day_of(s: Seq<char>) -> int {
    digits_value(s.subrange(day_start(s, 0), day_start(s, 0) + 2))
}

/// The two digits at offset `off` of the time stamp, or `default` without one.
pub open spec fn time_field(s: Seq<char>, off: int, default: int) -> int {
    if has_time(s) {
        digits_value(s.subrange(rest_start(s) + off, rest_start(s) + off + 2))
    } else {
        default
    }
}

pub open spec fn hour_of(s: Seq<char>) -> int {
    time_field(s, 0, 20)
}

pub open spec fn minute_of(s: Seq<char>) -> int {
    time_field(s, 2, 0)
}

pub open spec fn second_of(s: Seq<char>) -> int {
    time_field(s, 4, 0)
}

/// What decoding the name gives when it succeeds.
pub open spec fn moment_of(s: Seq<char>) -> Moment {
    Moment {
        year: year_of(s) as i32,
        month: month_of(s) as u32,
        day: day_of(s) as u32,
        hour: hour_of(s) as u32,
        minute: minute_of(s) as u32,
        second: second_of(s) as u32,
    }
}

/// Why decoding the name fails, if it does.
pub open spec fn extract_error(s: Seq<char>) -> Option<ExtractError> {
    if !recording_name(s) {
        Some(ExtractError::NameRejected)
    } else if !valid_date(year_of(s), month_of(s), day_of(s)) {
        Some(ExtractError::InvalidDate)
    } else if !valid_time(hour_of(s), minute_of(s), second_of(s)) {
        Some(ExtractError::InvalidTime)
    } else {
        None
    }
}

/// A name that opens with the date stamp `d` and one more character has the
/// stamp's shape, with its fields where the stamp has them.
proof fn lemma_date_prefix(n: Seq<char>, d: Seq<char>)
    requires
        date_stamp_at(d, 0),
        date_end(d, 0) == d.len(),
        d.len() < n.len(),
        n.subrange(0, d.len() as int) == d,
    ensures
        date_stamp_at(n, 0),
        date_end(n, 0) == d.len(),
        month_start(n, 0) == month_start(d, 0),
        day_start(n, 0) == day_start(d, 0),
{
    assert forall|j: int| 0 <= j < d.len() implies n[j] == d[j] by {
        assert(n.subrange(0, d.len() as int)[j] == n[j]);
    }
    assert(skip_dot(n, 4) == skip_dot(d, 4));
    assert(skip_dot(n, month_start(d, 0) + 2) == skip_dot(d, month_start(d, 0) + 2));
}

/// The title is not empty, holds no line break, and starts at or after the
/// annotation or title zone.
proof fn lemma_title_bounds(s: Seq<char>)
    requires
        file_shape(s),
    ensures
        body_start(s) <= title_start(s) < last_dot(s),
        no_newline(s, title_start(s), last_dot(s)),
{
    lemma_last_index_range(s, '】', last_dot(s) - 1);
}

/// A name is the date stamp, a separator, the time stamp, a separator, the
/// title, a '.' and the extension.
pub open spec fn compose_name(
    date: Seq<char>,
    sep1: char,
    time: Seq<char>,
    sep2: char,
    title: Seq<char>,
    ext: Seq<char>,
) -> Seq<char> {
    date.push(sep1) + time.push(sep2) + title.push('.') + ext
}

/// Decoding a title that was itself decoded, set in a name of recording
/// shape, gives the same title again: a title once cleaned of its annotation
/// stays as it is.
pub proof fn lemma_title_reparse(
    s: Seq<char>,
    date: Seq<char>,
    sep1: char,
    time: Seq<char>,
    sep2: char,
    ext: Seq<char>,
)
    requires
        recording_name(s),
        date_stamp_at(date, 0),
        date_end(date, 0) == date.len(),
        is_sep(sep1),
        time.len() == 6,
        digits_at(time, 0, 6),
        is_sep(sep2),
        ext.len() > 0,
        forall|j: int| 0 <= j < ext.len() ==> ext[j] != '.',
    ensures
        recording_name(compose_name(date, sep1, time, sep2, title_of(s), ext)),
        title_of(compose_name(date, sep1, time, sep2, title_of(s), ext)) == title_of(s),
{
    let t = title_of(s);
    let n = compose_name(date, sep1, time, sep2, t, ext);
    let dl = date.len() as int;
    let a = dl + 1;
    let b = a + 7;
    let p = b + t.len();
    let ps = last_dot(s);
    let ts = title_start(s);
    lemma_title_bounds(s);
    assert(n.len() == p + 1 + ext.len());
    assert(n.subrange(0, dl) =~= date);
    lemma_date_prefix(n, date);
    assert(n[dl] == sep1);
    assert forall|j: int| 0 <= j < 6 implies n[a + j] == time[j] && is_digit(#[trigger] n[a + j]) by {
        assert(is_digit(time[j]));
    }
    assert(n[a + 6] == sep2);
    assert forall|j: int| 0 <= j < t.len() implies n[b + j] == t[j] && #[trigger] t[j] == s[ts + j] by {}
    assert(n[p] == '.');
    assert forall|j: int| p < j < n.len() implies n[j] != '.' by {
        assert(n[j] == ext[j - p - 1]);
    }
    lemma_last_index_skip(n, '.', p + 1, n.len() as int);
    assert(last_dot(n) == p);
    assert(no_newline(n, b, p)) by {
        assert forall|j: int| b <= j < p implies #[trigger] n[j] != '\n' by {
            assert(n[j] == s[ts + (j - b)]);
        }
    }
    assert(digits_at(n, a, 6));
    assert(has_time(n));
    assert(body_start(n) == b);
    // No closing bracket can follow an opening one inside the title.
    if n[b] == '【' {
        assert(s[ts] == '【');
        assert forall|j: int| b + 2 <= j < p - 1 implies n[j] != '】' by {
            let i = ts + (j - b);
            assert(n[j] == s[i]);
            if annotation_close(s) >= 0 {
                lemma_last_index_after(s, '】', ps - 1, i);
            } else {
                lemma_last_index_range(s, '】', ps - 1);
                lemma_last_index_after(s, '】', ps - 1, i);
            }
        }
        if p - 1 >= b + 2 {
            lemma_last_index_skip(n, '】', b + 2, p - 1);
            lemma_last_index_range(n, '】', b + 2);
        } else {
            lemma_last_index_range(n, '】', p - 1);
        }
    }
    assert(title_start(n) == b);
    assert(title_of(n) =~= t);
}

/// An annotation in `【` `】` just before the title is left out of it.
pub proof fn lemma_annotation_dropped(
    date: Seq<char>,
    sep: char,
    note: Seq<char>,
    title: Seq<char>,
    ext: Seq<char>,
)
    requires
        date_stamp_at(date, 0),
        date_end(date, 0) == date.len(),
        is_sep(sep),
        note.len() > 0,
        forall|j: int| 0 <= j < note.len() ==> note[j] != '\n',
        !blank(title),
        forall|j: int| 0 <= j < title.len() ==> title[j] != '\n' && title[j] != '】',
        ext.len() > 0,
        forall|j: int| 0 <= j < ext.len() ==> ext[j] != '.',
    ensures
        recording_name(date.push(sep) + seq!['【'] + note.push('】') + title.push('.') + ext),
        title_of(date.push(sep) + seq!['【'] + note.push('】') + title.push('.') + ext) == title,
{
    let n = date.push(sep) + seq!['【'] + note.push('】') + title.push('.') + ext;
    let dl = date.len() as int;
    let b = dl + 1;
    let k = b + 1 + note.len();
    let p = k + 1 + title.len();
    assert(title.len() > 0);
    assert(n.len() == p + 1 + ext.len());
    assert(n.subrange(0, dl) =~= date);
    lemma_date_prefix(n, date);
    assert(n[dl] == sep);
    assert(n[b] == '【');
    assert(!is_digit(n[b]));
    assert(!has_time(n));
    assert(body_start(n) == b);
    assert(n[p] == '.');
    assert forall|j: int| p < j < n.len() implies n[j] != '.' by {
        assert(n[j] == ext[j - p - 1]);
    }
    lemma_last_index_skip(n, '.', p + 1, n.len() as int);
    assert(last_dot(n) == p);
    assert forall|j: int| b <= j < p implies #[trigger] n[j] != '\n' by {
        if b < j < k {
            assert(n[j] == note[j - b - 1]);
        } else if k < j {
            assert(n[j] == title[j - k - 1]);
        }
    }
    assert(tail_ok(n, b));
    assert forall|j: int| k < j < p - 1 implies n[j] != '】' by {
        assert(n[j] == title[j - k - 1]);
    }
    assert(n[k] == '】');
    lemma_last_index_skip(n, '】', k + 1, p - 1);
    assert(last_index_before(n, '】', k + 1) == k);
    assert(annotation_close(n) == k);
    assert(title_of(n) =~= title);
}

/// Without a time stamp, a recording is taken to start at 20:00:00.
pub proof fn lemma_default_time(s: Seq<char>)
    requires
        extract_error(s) is None,
        !has_time(s),
    ensures
        moment_of(s).hour == 20,
        moment_of(s).minute == 0,
        moment_of(s).second == 0,
{
}

/// The date decoded from a name is the one its stamp spells: year, month
/// and day as written, refused rather than adjusted when the day does not
/// exist.
pub proof fn lemma_date_as_written(s: Seq<char>)
    requires
        recording_name(s),
    ensures
        extract_error(s) is None ==> {
            &&& moment_of(s).year as int == year_of(s)
            &&& moment_of(s).month as int == month_of(s)
            &&& moment_of(s).day as int == day_of(s)
        },
        !valid_date(year_of(s), month_of(s), day_of(s)) ==> extract_error(s) == Some(
            ExtractError::InvalidDate,
        ),
{
    reveal_with_fuel(digits_value, 5);
    assert(s.subrange(0, 4).drop_last().drop_last().drop_last().drop_last().len() == 0);
}

fn all_space(v: &Vec<char>, lo: usize, hi: usize) -> (r: bool)
    requires
        lo <= hi <= v@.len(),
    ensures
        r == blank(v@.subrange(lo as int, hi as int)),
{
    let mut i: usize = lo;
    while i < hi
        invariant
            lo <= i <= hi <= v@.len(),
            forall|j: int| lo <= j < i ==> is_space(#[trigger] v@[j]),
        decreases hi - i,
    {
        if !is_space_char(v[i]) {
            assert(v@.subrange(lo as int, hi as int)[i - lo] == v@[i as int]);
            return false;
        }
        i = i + 1;
    }
    assert forall|j: int| 0 <= j < hi - lo implies is_space(#[trigger] v@.subrange(lo as int, hi as int)[j]) by {
        assert(v@.subrange(lo as int, hi as int)[j] == v@[lo + j]);
    }
    true
}

fn tail_ok_at(v: &Vec<char>, a: usize, dot: Option<usize>) -> (r: bool)
    requires
        match dot {
            Some(p) => p as int == last_dot(v@),
            None => last_dot(v@) == -1,
        },
    ensures
        r == tail_ok(v@, a as int),
{
    match dot {
        Some(p) => a < p && p < v.len() - 1 && newline_free(v, a, p),
        None => false,
    }
}

/// Decodes a media file's name (its base name, with extension) into the
/// moment of recording and the title.
pub fn extract_filename(filename: &str) -> (r: Result<(Moment, String), ExtractError>)
    ensures
        match r {
            Ok((m, t)) => {
                &&& extract_error(filename@) is None
                &&& m == moment_of(filename@)
                &&& m.wf()
                &&& 0 <= m.year < 10000
                &&& t@ == title_of(filename@)
            },
            Err(e) => extract_error(filename@) == Some(e),
        },
{
    let v = chars_of(filename);
    let n = v.len();
    if !has_digits(&v, 0, 4) {
        return Err(ExtractError::NameRejected);
    }
    let ms = skip_dot_at(&v, 4);
    if !has_digits(&v, ms, 2) {
        return Err(ExtractError::NameRejected);
    }
    let ds = skip_dot_at(&v, ms + 2);
    if !has_digits(&v, ds, 2) {
        return Err(ExtractError::NameRejected);
    }
    let de = ds + 2;
    if de >= n || !is_sep_char(v[de]) {
        return Err(ExtractError::NameRejected);
    }
    let a = de + 1;
    let dot = find_last_before(&v, '.', n);
    let timed = has_digits(&v, a, 6) && a + 6 < n && is_sep_char(v[a + 6]) && tail_ok_at(
        &v,
        a + 7,
        dot,
    );
    let b = if timed {
        a + 7
    } else {
        a
    };
    if !tail_ok_at(&v, b, dot) {
        return Err(ExtractError::NameRejected);
    }
    let p = dot.unwrap();
    let mut t = b;
    if v[b] == '【' {
        match find_last_before(&v, '】', p - 1) {
            Some(k) => {
                if k >= b + 2 {
                    t = k + 1;
                }
            },
            None => {},
        }
    }
    if all_space(&v, t, p) {
        return Err(ExtractError::NameRejected);
    }
    let year = read_number(&v, 0, 4);
    let month = read_number(&v, ms, 2);
    let day = read_number(&v, ds, 2);
    if !date_exists(year as i32, month, day) {
        return Err(ExtractError::InvalidDate);
    }
    let (hour, minute, second) = if timed {
        (read_number(&v, a, 2), read_number(&v, a + 2, 2), read_number(&v, a + 4, 2))
    } else {
        (20, 0, 0)
    };
    if !time_exists(hour, minute, second) {
        return Err(ExtractError::InvalidTime);
    }
    let title = substring(&v, t, p);
    let m = Moment { year: year as i32, month, day, hour, minute, second };
    Ok((m, title))
}

} // verus!

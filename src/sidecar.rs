//! The sidecar metadata document written beside each media file.

use vstd::prelude::*;
use crate::calendar::Moment;
use crate::filename::{ExtractError, extract_error, extract_filename, moment_of, title_of};
use crate::text::string_of;

verus! {

/// The decimal digit `d` (0..=9) as a character.
pub open spec fn digit_char(d: int) -> char {
    ((d + 48) as u8) as char
}

/// `n` (below 100) in two digits.
pub open spec fn pad2(n: int) -> Seq<char> {
    seq![digit_char(n / 10), digit_char(n % 10)]
}

/// `n` (below 10000) in four digits.
pub open spec fn pad4(n: int) -> Seq<char> {
    seq![digit_char(n / 1000), digit_char(n / 100 % 10), digit_char(n / 10 % 10), digit_char(n % 10)]
}

/// `n` in decimal, without leading zeros.
pub open spec fn decimal(n: nat) -> Seq<char>
    decreases n,
{
    if n < 10 {
        seq![digit_char(n as int)]
    } else {
        decimal(n / 10).push(digit_char((n % 10) as int))
    }
}

/// `YYYY-MM-DD`.
pub open spec fn date_text(m: Moment) -> Seq<char> {
    pad4(m.year as int) + "-"@ + pad2(m.month as int) + "-"@ + pad2(m.day as int)
}

/// `YYYY-MM-DD HH:MM:SS`.
pub open spec fn datetime_text(m: Moment) -> Seq<char> {
    date_text(m) + " "@ + pad2(m.hour as int) + ":"@ + pad2(m.minute as int) + ":"@ + pad2(
        m.second as int,
    )
}

pub const DOC_HEAD: &'static str = "<?xml version=\"1.0\" encoding=\"utf-8\" standalone=\"yes\"?>\n    <movie>\n        <dateadded>";

pub const DOC_TITLE: &'static str = "</dateadded>\n        <title>";

pub const DOC_ORIGINAL_TITLE: &'static str = "</title>\n        <originaltitle>";

pub const DOC_YEAR: &'static str = "</originaltitle>\n        <year>";

pub const DOC_PREMIERED: &'static str = "</year>\n        <premiered>";

pub const DOC_RELEASED: &'static str = "</premiered>\n        <releasedate>";

pub const DOC_TAIL: &'static str = "</releasedate>\n        <tag>A-SOUL</tag>\n        <set>\n            <name>A-SOUL</name>\n        </set>\n    </movie>";

/// The metadata document of a recording made at `m` under `title`.
pub open spec fn sidecar_text(m: Moment, title: Seq<char>) -> Seq<char> {
    DOC_HEAD@ + datetime_text(m) + DOC_TITLE@ + title + DOC_ORIGINAL_TITLE@ + title + DOC_YEAR@
        + decimal(m.year as nat) + DOC_PREMIERED@ + date_text(m) + DOC_RELEASED@ + date_text(m)
        + DOC_TAIL@
}

fn digit(d: u32) -> (r: char)
    requires
        d < 10,
    ensures
        r == digit_char(d as int),
{
    ((d + 48) as u8) as char
}

fn two_digits(n: u32) -> (r: String)
    requires
        n < 100,
    ensures
        r@ == pad2(n as int),
{
    let v: Vec<char> = vec![digit(n / 10), digit(n % 10)];
    string_of(&v)
}

fn four_digits(n: u32) -> (r: String)
    requires
        n < 10000,
    ensures
        r@ == pad4(n as int),
{
    let v: Vec<char> = vec![digit(n / 1000), digit(n / 100 % 10), digit(n / 10 % 10), digit(n % 10)];
    string_of(&v)
}

fn plain_number(n: u32) -> (r: String)
    requires
        n < 10000,
    ensures
        r@ == decimal(n as nat),
{
    let v: Vec<char> = if n < 10 {
        vec![digit(n)]
    } else if n < 100 {
        vec![digit(n / 10), digit(n % 10)]
    } else if n < 1000 {
        vec![digit(n / 100), digit(n / 10 % 10), digit(n % 10)]
    } else {
        vec![digit(n / 1000), digit(n / 100 % 10), digit(n / 10 % 10), digit(n % 10)]
    };
    proof {
        reveal_with_fuel(decimal, 4);
        assert(v@ =~= decimal(n as nat));
    }
    string_of(&v)
}

fn date_string(m: &Moment) -> (r: String)
    requires
        0 <= m.year < 10000,
        m.wf(),
    ensures
        r@ == date_text(*m),
{
    let mut out = four_digits(m.year as u32);
    out.append("-");
    out.append(two_digits(m.month).as_str());
    out.append("-");
    out.append(two_digits(m.day).as_str());
    out
}

/// Renders the metadata document of a recording made at `m` under `title`.
pub fn render_sidecar(m: &Moment, title: &str) -> (r: String)
    requires
        0 <= m.year < 10000,
        m.wf(),
    ensures
        r@ == sidecar_text(*m, title@),
{
    let date = date_string(m);
    let mut out = String::new();
    out.append(DOC_HEAD);
    out.append(date.as_str());
    out.append(" ");
    out.append(two_digits(m.hour).as_str());
    out.append(":");
    out.append(two_digits(m.minute).as_str());
    out.append(":");
    out.append(two_digits(m.second).as_str());
    out.append(DOC_TITLE);
    out.append(title);
    out.append(DOC_ORIGINAL_TITLE);
    out.append(title);
    out.append(DOC_YEAR);
    out.append(plain_number(m.year as u32).as_str());
    out.append(DOC_PREMIERED);
    out.append(date.as_str());
    out.append(DOC_RELEASED);
    out.append(date.as_str());
    out.append(DOC_TAIL);
    proof {
        assert(out@ =~= sidecar_text(*m, title@));
    }
    out
}

/// The metadata document for the media file named `media_filename`.
pub fn generate(media_filename: &str) -> (r: Result<String, ExtractError>)
    ensures
        match r {
            Ok(doc) => extract_error(media_filename@) is None && doc@ == sidecar_text(
                moment_of(media_filename@),
                title_of(media_filename@),
            ),
            Err(e) => extract_error(media_filename@) == Some(e),
        },
{
    match extract_filename(media_filename) {
        Ok((m, title)) => Ok(render_sidecar(&m, title.as_str())),
        Err(e) => Err(e),
    }
}

} // verus!

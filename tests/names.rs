use nfogen::calendar::Moment;
use nfogen::dirname::DIR_PATTERN;
use nfogen::filename::{extract_filename, ExtractError};

fn at(year: i32, month: u32, day: u32, hour: u32, minute: u32, second: u32) -> Moment {
    Moment { year, month, day, hour, minute, second }
}

#[test]
fn capture_filename() {
    let (_dt, title) =
        extract_filename("20210818-210116-【3D】看！看点儿啥呢！！！.flv").unwrap();
    assert_eq!(title, "看！看点儿啥呢！！！");

    let (_dr, title) = extract_filename("20210214 今天是情人节呢~聊天杂谈.flv").unwrap();
    assert_eq!(title, "今天是情人节呢~聊天杂谈");
}

#[test]
fn capture_dir() {
    assert!(DIR_PATTERN.is_match("20210116-乃琳 温柔夜谈"));
    assert!(DIR_PATTERN.is_match("20210220 A-SOUL小剧场 第八期 燃烧吧！卡路里！"));
}

#[test]
fn time_stamp_and_annotation() {
    let (m, title) = extract_filename("20210818-210116-【3D】看！看点儿啥呢！！！.flv").unwrap();
    assert_eq!(m, at(2021, 8, 18, 21, 1, 16));
    assert_eq!(title, "看！看点儿啥呢！！！");
}

#[test]
fn default_evening_time() {
    let (m, title) = extract_filename("20210214 今天是情人节呢~聊天杂谈.flv").unwrap();
    assert_eq!(m, at(2021, 2, 14, 20, 0, 0));
    assert_eq!(title, "今天是情人节呢~聊天杂谈");
}

#[test]
fn dotted_date_stamp() {
    let (m, title) = extract_filename("2021.08.18-093000 早安.mp4").unwrap();
    assert_eq!(m, at(2021, 8, 18, 9, 30, 0));
    assert_eq!(title, "早安");
    let (m, _) = extract_filename("2021.0818 x.flv").unwrap();
    assert_eq!(m, at(2021, 8, 18, 20, 0, 0));
}

#[test]
fn impossible_days_are_refused() {
    assert_eq!(extract_filename("20210832-x.flv"), Err(ExtractError::InvalidDate));
    assert_eq!(extract_filename("20211301-x.flv"), Err(ExtractError::InvalidDate));
    assert_eq!(extract_filename("20210229-x.flv"), Err(ExtractError::InvalidDate));
    assert_eq!(extract_filename("20210000-x.flv"), Err(ExtractError::InvalidDate));
    let (m, _) = extract_filename("20200229-x.flv").unwrap();
    assert_eq!(m, at(2020, 2, 29, 20, 0, 0));
}

#[test]
fn impossible_times_are_refused() {
    assert_eq!(extract_filename("20210818-250000-x.flv"), Err(ExtractError::InvalidTime));
    assert_eq!(extract_filename("20210818-206000-x.flv"), Err(ExtractError::InvalidTime));
    assert_eq!(extract_filename("20210818-200060-x.flv"), Err(ExtractError::InvalidTime));
}

#[test]
fn names_of_other_shapes_are_rejected() {
    for name in [
        "hello.flv",
        "20210818-.flv",
        "20210818-title",
        "20210818-title.",
        "20210818x.flv",
        "2021081-x.flv",
        "x20210818-a.flv",
        "20210818-a\nb.flv",
        "",
    ] {
        assert_eq!(extract_filename(name), Err(ExtractError::NameRejected), "{}", name);
    }
}

#[test]
fn blank_titles_are_rejected() {
    assert_eq!(extract_filename("20210818- .flv"), Err(ExtractError::NameRejected));
    assert_eq!(extract_filename("20210818-【a】\u{3000}.flv"), Err(ExtractError::NameRejected));
    let (_, title) = extract_filename("20210818-  x .flv").unwrap();
    assert_eq!(title, "  x ");
}

#[test]
fn time_stamp_needs_a_title_after_it() {
    let (m, title) = extract_filename("20210818-210116-.flv").unwrap();
    assert_eq!(m, at(2021, 8, 18, 20, 0, 0));
    assert_eq!(title, "210116-");
}

#[test]
fn title_keeps_inner_dots_and_unclosed_brackets() {
    let (_, title) = extract_filename("20210818 a.b.c.mp4").unwrap();
    assert_eq!(title, "a.b.c");
    let (_, title) = extract_filename("20210818-【abc.flv").unwrap();
    assert_eq!(title, "【abc");
    let (_, title) = extract_filename("20210818-【】x.flv").unwrap();
    assert_eq!(title, "【】x");
    let (_, title) = extract_filename("20210818-【a】【b】c.flv").unwrap();
    assert_eq!(title, "c");
    let (_, title) = extract_filename("20210818-a【b】c.flv").unwrap();
    assert_eq!(title, "a【b】c");
}

#[test]
fn annotation_never_in_title() {
    let (_, title) = extract_filename("20210818-123456-【生日会】快乐.flv").unwrap();
    assert_eq!(title, "快乐");
    assert!(!title.contains("生日会"));
}

#[test]
fn cleaned_title_reparses_to_itself() {
    for name in [
        "20210818-210116-【3D】看！看点儿啥呢！！！.flv",
        "20210214 今天是情人节呢~聊天杂谈.flv",
        "20210818-【a】【b】c.flv",
        "20210818-【abc.flv",
    ] {
        let (_, title) = extract_filename(name).unwrap();
        let again = format!("20200101-000000-{}.mp4", title);
        let (_, title2) = extract_filename(&again).unwrap();
        assert_eq!(title, title2);
    }
}

#[test]
fn folder_names() {
    assert!(DIR_PATTERN.is_match("20210116-乃琳 温柔夜谈"));
    assert!(DIR_PATTERN.is_match("2021.01.16 a"));
    assert!(DIR_PATTERN.is_match("/media/rec/20210116-a"));
    assert!(!DIR_PATTERN.is_match("20210116"));
    assert!(!DIR_PATTERN.is_match("20210116-"));
    assert!(!DIR_PATTERN.is_match("20210116-\nx"));
    assert!(!DIR_PATTERN.is_match("乃琳 温柔夜谈"));
    assert!(!DIR_PATTERN.is_match(""));
}

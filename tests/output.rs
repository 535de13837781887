use nfogen::batch::{is_media_extension, needs_sidecar, run_dir, MediaEntry};
use nfogen::calendar::Moment;
use nfogen::filename::ExtractError;
use nfogen::sidecar::{generate, render_sidecar};

fn entry(ext: Option<&str>, sidecar: Option<i128>, media: i128) -> MediaEntry {
    MediaEntry {
        extension: ext.map(|e| e.to_string()),
        sidecar_modified: sidecar,
        media_modified: media,
    }
}

#[test]
fn sidecar_document() {
    let doc = generate("20210818-210116-【3D】看！看点儿啥呢！！！.flv").unwrap();
    let want = "<?xml version=\"1.0\" encoding=\"utf-8\" standalone=\"yes\"?>
    <movie>
        <dateadded>2021-08-18 21:01:16</dateadded>
        <title>看！看点儿啥呢！！！</title>
        <originaltitle>看！看点儿啥呢！！！</originaltitle>
        <year>2021</year>
        <premiered>2021-08-18</premiered>
        <releasedate>2021-08-18</releasedate>
        <tag>A-SOUL</tag>
        <set>
            <name>A-SOUL</name>
        </set>
    </movie>";
    assert_eq!(doc, want);
}

#[test]
fn sidecar_pads_dates_but_not_the_year_element() {
    let m = Moment { year: 987, month: 3, day: 4, hour: 5, minute: 6, second: 7 };
    let doc = render_sidecar(&m, "t");
    assert!(doc.contains("<dateadded>0987-03-04 05:06:07</dateadded>"));
    assert!(doc.contains("<year>987</year>"));
    assert!(doc.contains("<premiered>0987-03-04</premiered>"));
}

#[test]
fn sidecar_refused_for_bad_names() {
    assert_eq!(generate("notes.flv"), Err(ExtractError::NameRejected));
    assert_eq!(generate("20210230 x.flv"), Err(ExtractError::InvalidDate));
}

#[test]
fn media_extensions() {
    assert!(is_media_extension("flv"));
    assert!(is_media_extension("mp4"));
    assert!(!is_media_extension("nfo"));
    assert!(!is_media_extension("FLV"));
    assert!(!is_media_extension("mp"));
    assert!(!is_media_extension(""));
}

#[test]
fn freshness_rule() {
    assert!(needs_sidecar(None, 5, false));
    assert!(needs_sidecar(Some(5), 5, false));
    assert!(needs_sidecar(Some(4), 5, false));
    assert!(!needs_sidecar(Some(6), 5, false));
    assert!(needs_sidecar(Some(6), 5, true));
}

#[test]
fn rerun_leaves_fresh_sidecars() {
    let entries = vec![
        entry(Some("flv"), None, 10),
        entry(Some("mp4"), Some(20), 10),
        entry(Some("nfo"), None, 10),
        entry(None, None, 10),
        entry(Some("mp4"), Some(10), 10),
        entry(Some("flv"), Some(3), 10),
    ];
    assert_eq!(run_dir(&entries, false), vec![0, 4, 5]);
    assert_eq!(run_dir(&entries, true), vec![0, 1, 4, 5]);
    assert_eq!(run_dir(&Vec::new(), false), Vec::<usize>::new());
}

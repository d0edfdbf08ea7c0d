use nzb_file::{File, Segment, Timestamp};
use std::collections::hash_map::DefaultHasher;
use std::hash::{Hash, Hasher};

fn ts() -> Timestamp {
    Timestamp { secs: 1_706_440_708, nanos: 0 }
}

fn seg(size: u64, number: u32, id: &str) -> Segment {
    Segment::new(size, number, id.to_string())
}

fn file_with_subject(subject: &str) -> File {
    File::new(
        "poster <poster@example.com>".to_string(),
        ts(),
        subject.to_string(),
        vec!["alt.binaries.test".to_string()],
        vec![seg(1024, 1, "id1@example"), seg(512, 2, "id2@example")],
    )
}

#[test]
fn size_sums_segment_sizes() {
    let f = File::new(
        "p".to_string(),
        ts(),
        "s".to_string(),
        vec![],
        vec![seg(100, 1, "a@x"), seg(200, 2, "b@x"), seg(300, 3, "c@x")],
    );
    assert_eq!(f.size(), 600);
    assert_eq!(f.checked_size(), Some(600));
}

#[test]
fn size_of_no_segments_is_zero() {
    let f = File::new("p".to_string(), ts(), "s".to_string(), vec![], vec![]);
    assert_eq!(f.size(), 0);
    assert_eq!(f.checked_size(), Some(0));
}

#[test]
fn total_size_tolerates_duplicate_and_gapped_numbers() {
    let segs = vec![seg(10, 1, "a@x"), seg(20, 1, "b@x"), seg(30, 7, "c@x")];
    assert_eq!(nzb_file::total_size(&segs), Some(60));
    assert_eq!(nzb_file::total_size(&vec![]), Some(0));
}

#[test]
fn total_size_reports_overflow_instead_of_wrapping() {
    let segs = vec![seg(u64::MAX, 1, "a@x"), seg(1, 2, "b@x")];
    assert_eq!(nzb_file::total_size(&segs), None);
    let f = File::new("p".to_string(), ts(), "s".to_string(), vec![], segs);
    assert_eq!(f.checked_size(), None);
}

#[test]
fn scenario_big_movie() {
    let f = file_with_subject(r#"[03/22] - "Big.Movie.2020.mkv" yEnc (1/40)"#);
    assert_eq!(f.name(), Some("Big.Movie.2020.mkv".to_string()));
    assert_eq!(f.stem(), Some("Big.Movie.2020".to_string()));
    assert_eq!(f.extension(), Some("mkv".to_string()));
    assert!(!f.is_par2());
    assert!(!f.is_rar());
    assert!(!f.is_obfuscated());
}

#[test]
fn scenario_unquoted_obfuscated_subject() {
    let f = file_with_subject("a1b2c3d4e5f6a1b2c3d4e5f6a1b2c3d4.rar (1/1)");
    assert_eq!(f.name(), None);
    assert_eq!(f.stem(), None);
    assert_eq!(f.extension(), None);
    assert!(!f.is_par2());
    assert!(!f.is_rar());
    assert!(f.is_obfuscated());
}

#[test]
fn par2_extension_is_par2() {
    let f = file_with_subject(r#"[1/5] - "archive.vol0.par2" yEnc (1/3)"#);
    assert!(f.is_par2());
    assert!(!f.is_rar());
}

#[test]
fn par2_volume_name_is_par2() {
    let f = file_with_subject(r#"[2/5] - "archive.par2.001" yEnc (1/3)"#);
    assert!(f.is_par2());
}

#[test]
fn par2_is_false_for_rar_txt_and_absent() {
    assert!(!file_with_subject(r#""archive.rar" yEnc"#).is_par2());
    assert!(!file_with_subject(r#""notes.txt" yEnc"#).is_par2());
    assert!(!file_with_subject("no quotes here").is_par2());
}

#[test]
fn rar_extensions_are_rar() {
    assert!(file_with_subject(r#""archive.rar" yEnc"#).is_rar());
    assert!(file_with_subject(r#""archive.r00" yEnc"#).is_rar());
    assert!(file_with_subject(r#""archive.r01" yEnc"#).is_rar());
    assert!(file_with_subject(r#""archive.part1.rar" yEnc"#).is_rar());
    assert!(file_with_subject(r#""ARCHIVE.RAR" yEnc"#).is_rar());
}

#[test]
fn rar_is_false_for_par2_and_txt() {
    assert!(!file_with_subject(r#""archive.par2" yEnc"#).is_rar());
    assert!(!file_with_subject(r#""notes.txt" yEnc"#).is_rar());
    assert!(!file_with_subject("no quotes here").is_rar());
}

#[test]
fn equal_fields_make_equal_files() {
    let a = file_with_subject(r#"[1/2] - "Some.Name.mkv" yEnc (1/2)"#);
    let b = file_with_subject(r#"[1/2] - "Some.Name.mkv" yEnc (1/2)"#);
    // Access derived properties on one side only: they are recomputed from
    // the stored fields and play no part in equality or hashing.
    let _ = a.name();
    let _ = a.is_par2();
    let _ = a.size();
    assert_eq!(a, b);
    let mut ha = DefaultHasher::new();
    let mut hb = DefaultHasher::new();
    a.hash(&mut ha);
    b.hash(&mut hb);
    assert_eq!(ha.finish(), hb.finish());
}

#[test]
fn different_fields_make_unequal_files() {
    let a = file_with_subject(r#""x.bin" yEnc"#);
    let b = file_with_subject(r#""y.bin" yEnc"#);
    assert_ne!(a, b);
    let c = File::new(
        "other poster".to_string(),
        ts(),
        r#""x.bin" yEnc"#.to_string(),
        vec!["alt.binaries.test".to_string()],
        vec![seg(1024, 1, "id1@example"), seg(512, 2, "id2@example")],
    );
    assert_ne!(a, c);
}

#[test]
fn hex_stem_is_obfuscated() {
    let f = file_with_subject(r#""599c1c9e2bdfb5114044bf25152b7eaa.mkv" yEnc"#);
    assert!(f.is_obfuscated());
}

#[test]
fn guid_stem_is_obfuscated() {
    let f = file_with_subject(r#""a1b2c3d4-e5f6-a1b2-c3d4-e5f6a1b2c3d4.bin" yEnc"#);
    assert!(f.is_obfuscated());
}

#[test]
fn long_run_without_separators_is_obfuscated() {
    let f = file_with_subject(r#""e0nFmxBNTprpbQiVQ44WeEwSrBkLlJ7IgaSj3uzFu455FVYG3q.bin" yEnc"#);
    assert!(f.is_obfuscated());
}

#[test]
fn human_names_are_not_obfuscated() {
    assert!(!file_with_subject(r#""Great Distro (2020).iso" yEnc"#).is_obfuscated());
    assert!(!file_with_subject(r#""My Favorite Distro S03E04.iso" yEnc"#).is_obfuscated());
}

#[test]
fn getters_return_stored_fields() {
    let f = file_with_subject(r#""x.bin" yEnc"#);
    assert_eq!(f.poster().as_str(), "poster <poster@example.com>");
    assert_eq!(f.datetime(), ts());
    assert_eq!(f.subject().as_str(), r#""x.bin" yEnc"#);
    assert_eq!(f.groups(), &vec!["alt.binaries.test".to_string()]);
    assert_eq!(f.segments().len(), 2);
    assert_eq!(f.segments()[0].size, 1024);
    assert_eq!(f.segments()[1].number, 2);
    assert_eq!(f.segments()[0].message_id, "id1@example");
}

use nzb_file::{decompose, extract_name, is_obfuscated_stem, is_par2_name, is_rar_name};

#[test]
fn first_quoted_substring_is_returned_verbatim() {
    assert_eq!(
        extract_name(r#"[1/20] - "My.File.Name.part01.rar" yEnc (1/50)"#),
        Some("My.File.Name.part01.rar".to_string())
    );
    // Returned verbatim: surrounding whitespace inside the quotes stays.
    assert_eq!(
        extract_name(r#"x - " My File.mkv" yEnc"#),
        Some(" My File.mkv".to_string())
    );
}

#[test]
fn blank_quoted_substrings_are_skipped() {
    assert_eq!(
        extract_name(r#""" - "real.name.bin" yEnc"#),
        Some("real.name.bin".to_string())
    );
    assert_eq!(
        extract_name(r#"" " then "actual.iso""#),
        Some("actual.iso".to_string())
    );
}

#[test]
fn no_quotes_means_no_name() {
    assert_eq!(extract_name("plain subject without quotes"), None);
    assert_eq!(extract_name(""), None);
    assert_eq!(extract_name("a1b2c3d4e5f6a1b2c3d4e5f6a1b2c3d4.rar (1/1)"), None);
}

#[test]
fn unmatched_quotes_yield_no_name() {
    assert_eq!(extract_name(r#"broken "tail"#), None);
    assert_eq!(extract_name(r#"""#), None);
}

#[test]
fn only_blank_quotes_yield_no_name() {
    assert_eq!(extract_name(r#"empty "" and blank "  " only"#), None);
}

#[test]
fn unicode_names_survive_extraction() {
    assert_eq!(
        extract_name(r#"[1/1] - "Füße und Straße.mkv" yEnc (1/1)"#),
        Some("Füße und Straße.mkv".to_string())
    );
}

#[test]
fn decompose_splits_at_last_separator() {
    assert_eq!(
        decompose("Big.Movie.2020.mkv"),
        ("Big.Movie.2020".to_string(), Some("mkv".to_string()))
    );
    assert_eq!(decompose("index.bdmv"), ("index".to_string(), Some("bdmv".to_string())));
}

#[test]
fn decompose_without_separator_keeps_whole_name() {
    assert_eq!(decompose("README"), ("README".to_string(), None));
}

#[test]
fn decompose_with_leading_separator_only_keeps_whole_name() {
    assert_eq!(decompose(".hidden"), (".hidden".to_string(), None));
}

#[test]
fn decompose_with_trailing_separator_gives_empty_extension() {
    assert_eq!(decompose("name."), ("name".to_string(), Some(String::new())));
}

#[test]
fn stem_and_extension_reconstruct_the_name() {
    for name in ["a.b", "Big.Movie.2020.mkv", "x.", ".lead.tail", "a.b.c.d"] {
        let (stem, ext) = decompose(name);
        let rebuilt = format!("{}.{}", stem, ext.expect("these names all have an extension"));
        assert_eq!(rebuilt, name);
    }
}

#[test]
fn par2_names_are_classified() {
    assert!(is_par2_name("archive.par2"));
    assert!(is_par2_name("archive.PAR2"));
    assert!(is_par2_name("archive.par2.001"));
    assert!(is_par2_name("archive.vol127+128.par2"));
    assert!(!is_par2_name("archive.rar"));
    assert!(!is_par2_name("notes.txt"));
    assert!(!is_par2_name(".par2"));
}

#[test]
fn rar_names_are_classified() {
    assert!(is_rar_name("archive.rar"));
    assert!(is_rar_name("archive.r00"));
    assert!(is_rar_name("archive.R42"));
    assert!(is_rar_name("archive.part1.rar"));
    assert!(!is_rar_name("archive.par2"));
    assert!(!is_rar_name("notes.txt"));
    assert!(!is_rar_name("archive.rarx"));
}

#[test]
fn obfuscated_stems_are_flagged() {
    assert!(is_obfuscated_stem("599c1c9e2bdfb5114044bf25152b7eaa"));
    assert!(is_obfuscated_stem("a1b2c3d4-e5f6-a1b2-c3d4-e5f6a1b2c3d4"));
    assert!(is_obfuscated_stem("e0nFmxBNTprpbQiVQ44WeEwSrBkLlJ7IgaSj3uzFu455FVYG3q"));
    assert!(!is_obfuscated_stem("Big.Movie.2020"));
    assert!(!is_obfuscated_stem("Great Distro (2020)"));
    assert!(!is_obfuscated_stem("short"));
}

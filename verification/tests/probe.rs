use cargo_when::rustc::{ProbeFailure, RustCInfo};
use cargo_when::version::{Identifier, ParsedVersion, Release};
use cargo_when::words::{classify, find_nth_word, word};

fn release(major: u64, minor: u64, patch: u64) -> Release {
    Release { major, minor, patch }
}

#[test]
fn stable_release_is_on_the_stable_channel() {
    let info = RustCInfo::from_output("rustc 1.74.0 (79e9716c9 2023-11-13)").unwrap();
    assert_eq!(info.channel(), "stable");
    assert_eq!(info.version(), release(1, 74, 0));
}

#[test]
fn nightly_tag_gives_the_nightly_channel() {
    let info = RustCInfo::from_output("rustc 1.76.0-nightly (d86d65bbc 2023-12-10)").unwrap();
    assert_eq!(info.channel(), "nightly");
    assert_eq!(info.version(), release(1, 76, 0));
}

#[test]
fn beta_tag_with_a_number_gives_the_beta_channel() {
    let info = RustCInfo::from_output("rustc 1.75.0-beta.3 (b66b7951b 2023-11-20)").unwrap();
    assert_eq!(info.channel(), "beta");
    assert_eq!(info.version(), release(1, 75, 0));
}

#[test]
fn numeric_first_tag_gives_the_unknown_channel() {
    let info = RustCInfo::from_output("rustc 1.2.3-4.beta").unwrap();
    assert_eq!(info.channel(), "unknown");
    assert_eq!(info.version(), release(1, 2, 3));
}

#[test]
fn channel_keeps_the_case_of_the_tag() {
    let info = RustCInfo::from_output("rustc 1.2.3-Nightly").unwrap();
    assert_eq!(info.channel(), "Nightly");
}

#[test]
fn build_metadata_is_dropped() {
    let info = RustCInfo::from_output("rustc 1.2.3+build.7").unwrap();
    assert_eq!(info.channel(), "stable");
    assert_eq!(info.version(), release(1, 2, 3));
    let info = RustCInfo::from_output("rustc 1.2.3-dev+build.7").unwrap();
    assert_eq!(info.channel(), "dev");
    assert_eq!(info.version(), release(1, 2, 3));
}

#[test]
fn version_is_the_second_word_whatever_the_spacing() {
    let info = RustCInfo::from_output("  rustc\t\t1.60.0\n").unwrap();
    assert_eq!(info, RustCInfo::new("stable".to_string(), release(1, 60, 0)));
    let info = RustCInfo::from_output("rustc\u{3000}1.61.0-beta\u{a0}x").unwrap();
    assert_eq!(info, RustCInfo::new("beta".to_string(), release(1, 61, 0)));
}

#[test]
fn answer_without_second_word_is_refused() {
    assert_eq!(RustCInfo::from_output(""), Err(ProbeFailure::MissingVersion));
    assert_eq!(RustCInfo::from_output("   \n"), Err(ProbeFailure::MissingVersion));
    assert_eq!(RustCInfo::from_output("rustc"), Err(ProbeFailure::MissingVersion));
    assert_eq!(RustCInfo::from_output(" rustc  "), Err(ProbeFailure::MissingVersion));
}

#[test]
fn second_word_that_is_no_version_is_refused() {
    assert!(matches!(
        RustCInfo::from_output("rustc version 1.74.0"),
        Err(ProbeFailure::InvalidVersion(_))
    ));
    assert!(matches!(RustCInfo::from_output("rustc 1.74"), Err(ProbeFailure::InvalidVersion(_))));
    assert!(matches!(
        RustCInfo::from_output("rustc 1.74.0.1"),
        Err(ProbeFailure::InvalidVersion(_))
    ));
}

#[test]
fn get_info_reads_bytes_that_are_text() {
    let info = RustCInfo::get_info(b"rustc 1.74.0 (79e9716c9 2023-11-13)\n").unwrap();
    assert_eq!(info.channel(), "stable");
    assert_eq!(info.version(), release(1, 74, 0));
    let info = RustCInfo::get_info("rustc\u{2003}1.80.1-nightly".as_bytes()).unwrap();
    assert_eq!(info.channel(), "nightly");
    assert_eq!(info.version(), release(1, 80, 1));
}

#[test]
fn get_info_refuses_bytes_that_are_no_text() {
    assert_eq!(RustCInfo::get_info(b"rustc 1.74.0 \xff"), Err(ProbeFailure::NotText));
    assert_eq!(RustCInfo::get_info(b"\xc3\x28"), Err(ProbeFailure::NotText));
    assert_eq!(RustCInfo::get_info(b""), Err(ProbeFailure::MissingVersion));
    assert!(matches!(RustCInfo::get_info(b"rustc one"), Err(ProbeFailure::InvalidVersion(_))));
}

#[test]
fn from_version_follows_the_first_tag() {
    let plain = ParsedVersion { release: release(1, 74, 0), pre: vec![] };
    assert_eq!(RustCInfo::from_version(&plain).channel(), "stable");
    let tagged = ParsedVersion {
        release: release(1, 74, 0),
        pre: vec![Identifier::AlphaNumeric("beta".to_string()), Identifier::Numeric(2)],
    };
    let info = RustCInfo::from_version(&tagged);
    assert_eq!(info.channel(), "beta");
    assert_eq!(info.version(), release(1, 74, 0));
    let numbered = ParsedVersion {
        release: release(0, 1, 0),
        pre: vec![Identifier::Numeric(7), Identifier::AlphaNumeric("nightly".to_string())],
    };
    assert_eq!(RustCInfo::from_version(&numbered).channel(), "unknown");
}

#[test]
fn new_keeps_channel_and_version() {
    let info = RustCInfo::new("beta".to_string(), release(3, 2, 1));
    assert_eq!(info.channel(), "beta");
    assert_eq!(info.version(), release(3, 2, 1));
}

#[test]
fn classify_marks_whitespace() {
    assert_eq!(classify("a b"), vec![false, true, false]);
    assert_eq!(classify("\t\n\r x"), vec![true, true, true, true, false]);
    assert_eq!(classify("\u{a0}\u{2028}-"), vec![true, true, false]);
    assert_eq!(classify(""), Vec::<bool>::new());
}

#[test]
fn find_nth_word_gives_the_span() {
    let space = [true, false, false, true, true, false, true];
    assert_eq!(find_nth_word(&space, 0), Some((1, 3)));
    assert_eq!(find_nth_word(&space, 1), Some((5, 6)));
    assert_eq!(find_nth_word(&space, 2), None);
    assert_eq!(find_nth_word(&[], 0), None);
    assert_eq!(find_nth_word(&[true, true], 0), None);
    assert_eq!(find_nth_word(&[false, false], 0), Some((0, 2)));
    assert_eq!(find_nth_word(&[false, true, false], 1), Some((2, 3)));
}

#[test]
fn word_agrees_with_split_whitespace() {
    let texts = ["", " ", "one", " one two  three ", "\u{e9}t\u{e9} \u{4e2d}\u{6587}\tz", "a\u{2009}b"];
    for text in texts {
        for n in 0..5 {
            assert_eq!(word(text, n), text.split_whitespace().nth(n));
        }
    }
}

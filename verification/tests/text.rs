use area_translator::model::normalize;
use area_translator::service::{valid_api_key, Snapshot};

#[test]
fn normalize_collapses_and_trims_whitespace() {
    assert_eq!(normalize("  Hello \t world!\n\u{3000}Again "), "Hello world! Again");
    assert_eq!(normalize(""), "");
    assert_eq!(normalize(" \n\t "), "");
    assert_eq!(normalize("Keep  reading.\n"), "Keep reading.");
    let once = normalize("a \u{85} b\u{a0}\u{a0}c");
    assert_eq!(once, "a b c");
    assert_eq!(normalize(&once), once);
}

#[test]
fn api_keys_have_a_restricted_shape() {
    assert!(valid_api_key("AIzaSyA-abc_0123456789"));
    assert!(!valid_api_key("short"));
    assert!(!valid_api_key("has space in the key"));
    assert!(!valid_api_key("ключключключключ"));
    assert!(!valid_api_key(&"a".repeat(257)));
    assert!(valid_api_key(&"a".repeat(256)));
    assert!(valid_api_key(&"a".repeat(10)));
}

#[test]
fn default_snapshot_is_idle() {
    let snapshot = Snapshot::default();
    assert_eq!(snapshot.state, "idle");
    assert_eq!(snapshot.message, "Selecione uma área para começar.");
    assert_eq!(snapshot.api_count, 0);
    assert!(snapshot.region.is_none());
}

#[test]
fn normalization_keeps_letters_case_and_punctuation() {
    let input = " \tDon't  STOP,\n\u{2003}now?! 42 ";
    let visible = |s: &str| s.chars().filter(|c| !c.is_whitespace()).collect::<String>();
    let normal = normalize(input);
    assert_eq!(normal, "Don't STOP, now?! 42");
    assert_eq!(visible(&normal), visible(input));
}

#[test]
fn normalization_keeps_the_words_in_order() {
    let input = "  The  quick\tbrown\n\nfox!  ";
    let normal = normalize(input);
    assert!(normal.split_whitespace().eq(input.split_whitespace()));
    assert_eq!(normal, input.split_whitespace().collect::<Vec<_>>().join(" "));
    assert_eq!(normalize(&normal), normal);
}

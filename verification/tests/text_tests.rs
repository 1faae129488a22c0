use latex_preview::preview::Preview;
use latex_preview::text::{contains_str, find_from, replace_all, to_chars};

#[test]
fn test_replace_all_scans_left_to_right() {
    assert_eq!(replace_all("abab", "ab", "x"), "xx");
    assert_eq!(replace_all("aaa", "aa", "b"), "ba");
    assert_eq!(replace_all("hello", "zz", "x"), "hello");
    assert_eq!(replace_all("hello", "", "x"), "hello");
}

#[test]
fn test_find_from_leftmost() {
    let text = to_chars("one two one");
    let pat = to_chars("one");
    assert_eq!(find_from(&text, &pat, 0), Some(0));
    assert_eq!(find_from(&text, &pat, 1), Some(8));
    assert_eq!(find_from(&text, &pat, 9), None);
}

#[test]
fn test_contains_str_scan() {
    let log = to_chars("LaTeX Warning: Label(s) may have changed.");
    assert!(contains_str(&log, "Label(s) may have changed"));
    assert!(!contains_str(&log, "Rerun to get"));
    assert!(contains_str(&log, ""));
}

#[test]
fn test_sanitize_keeps_other_text() {
    let out = Preview::sanitize_paths("nothing to hide", "/tmp/abc", "/tmp/abc/doc.tex");
    assert_eq!(out, "nothing to hide");
}

#[test]
fn test_sanitize_removes_every_occurrence() {
    let temp_dir = "/tmp/work.123";
    let input_path = "/tmp/work.123/doc.tex";
    let text = "open /tmp/work.123/doc.tex then /tmp/work.123/doc.log and /tmp/work.123 again";
    let out = Preview::sanitize_paths(text, temp_dir, input_path);
    assert!(!out.contains(temp_dir));
    assert!(!out.contains(input_path));
    assert_eq!(
        out,
        "open [TEMP_DIR]/doc.tex then [TEMP_DIR]/doc.log and [TEMP_DIR] again"
    );
}

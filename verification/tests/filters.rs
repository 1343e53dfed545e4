use std::path::Path;

use asr_debugger::namefilter::parse_filter;
use asr_debugger::namefilter::NameFilter;
use asr_debugger::pattern::contains_all_in_order;
use asr_debugger::pattern::matches_filter;
use asr_debugger::pattern::matches_mime_type;
use asr_debugger::pattern::matches_single_pattern;
use asr_debugger::pattern::FileFilter;

#[test]
fn test_matches_single_pattern() {
    assert!(matches_single_pattern(b"bar.exe", b"*.exe"));
    assert!(!matches_single_pattern(b"bar.exeafter", b"*.exe"));
    assert!(!matches_single_pattern(b"beforebar.exe", b"bar*"));
    assert!(matches_single_pattern(b"beforebarafter", b"*bar*"));
    assert!(matches_single_pattern(b"bar.txt", b"*.txt"));
    assert!(matches_single_pattern(b"quick brown fox", b"*ick*row*ox"));
    assert!(matches_single_pattern(b"quick brown fox", b"q*ick*row*ox"));
    assert!(!matches_single_pattern(b"quick brown fox", b"*row*ox*ick*"));
}

#[test]
fn test_matches_mime_type() {
    assert!(matches_mime_type(b"foo.txt", "text/plain"));
    assert!(matches_mime_type(b"foo.jpg", "image/jpeg"));
    assert!(matches_mime_type(b"foo.jpeg", "image/jpeg"));
    assert!(matches_mime_type(b"foo.png", "image/png"));

    assert!(!matches_mime_type(b"foo.txt", "image/*"));
    assert!(matches_mime_type(b"foo.jpg", "image/*"));
    assert!(matches_mime_type(b"foo.jpeg", "image/*"));
    assert!(matches_mime_type(b"foo.png", "image/*"));

    assert!(!matches_mime_type(b"txt", "text/plain"));
    assert!(!matches_mime_type(b"jpg", "image/jpeg"));
    assert!(!matches_mime_type(b"jpeg", "image/jpeg"));
    assert!(!matches_mime_type(b"png", "image/png"));

    assert!(!matches_mime_type(b"footxt", "text/plain"));
    assert!(!matches_mime_type(b"foojpg", "image/jpeg"));
    assert!(!matches_mime_type(b"foojpeg", "image/jpeg"));
    assert!(!matches_mime_type(b"foopng", "image/png"));

    assert!(!matches_mime_type(b"foo.txt", "image/jpeg"));
    assert!(!matches_mime_type(b"foo.jpg", "image/png"));
    assert!(!matches_mime_type(b"foo.jpeg", "image/png"));
    assert!(!matches_mime_type(b"foo.png", "text/plain"));
}

#[test]
fn test_contains_all_in_order() {
    assert!(contains_all_in_order("bar.exe", &[".exe".to_string()]));
    assert!(contains_all_in_order(
        "bar.exe",
        &["".to_string(), ".exe".to_string()]
    ));
    assert!(contains_all_in_order(
        "bar.txt",
        &["".to_string(), ".txt".to_string()]
    ));
    assert!(!contains_all_in_order(
        "bar.txt",
        &["".to_string(), ".exe".to_string()]
    ));
    assert!(!contains_all_in_order(
        "bar.exe",
        &["".to_string(), ".txt".to_string()]
    ));
    assert!(contains_all_in_order(
        "quick brown fox",
        &["ick".to_string(), "row".to_string(), "ox".to_string()]
    ));
    assert!(!contains_all_in_order(
        "quick brown fox",
        &["row".to_string(), "ox".to_string(), "ick".to_string()]
    ));
}

fn passes(filter: &NameFilter, path: &str) -> bool {
    let name = Path::new(path)
        .file_name()
        .unwrap_or_default()
        .to_string_lossy()
        .into_owned();
    filter.matches_name(&name)
}

#[test]
fn single_pattern_filter() {
    let filter_exe = parse_filter("*.exe");
    let filter_txt = parse_filter("*.txt");
    assert!(passes(&filter_exe, r"/foo/bar.exe"));
    assert!(passes(&filter_txt, r"/mnt/foo/bar.txt"));
    assert!(passes(&filter_exe, r"/mnt/c/foo/bar.exe"));
    assert!(passes(&filter_txt, r"C:\foo\bar.txt"));
    assert!(!passes(&filter_exe, r"/foo/bar.txt"));
    assert!(!passes(&filter_txt, r"/mnt/foo/bar.exe"));
    let filter_bar_exe = parse_filter("*bar*.exe");
    assert!(passes(&filter_bar_exe, r"/foo/bar.exe"));
    assert!(!passes(&filter_bar_exe, r"/foo/bar/baz.exe"));
    assert!(!passes(&filter_bar_exe, r"/foo/baz.exe.bar.txt"));
}

#[test]
fn multi_pattern_filter() {
    let filter_txt_md = parse_filter("*.txt;*md");
    assert!(passes(&filter_txt_md, r"/foo/bar.txt"));
    assert!(passes(&filter_txt_md, r"/mnt/foo/bar.md"));
    assert!(passes(&filter_txt_md, r"/mnt/c/foo/bar.txt"));
    assert!(passes(&filter_txt_md, r"C:\foo\bar.md"));
    assert!(!passes(&filter_txt_md, r"/foo/bar.exe"));
    assert!(!passes(&filter_txt_md, r"/foo/bar.txt/baz.exe"));
    assert!(!passes(&filter_txt_md, r"/foo/bar.md/baz.exe"));
}

#[test]
fn name_filter_with_spaces_matches_any_piece() {
    let filter = FileFilter::Name {
        description: "executables and text".to_string(),
        pattern: b"*.exe *.txt".to_vec(),
    };
    assert!(matches_filter(b"bar.exe", &filter));
    assert!(matches_filter(b"bar.txt", &filter));
    assert!(!matches_filter(b"bar.md", &filter));
}

#[test]
fn mime_filter_goes_by_extension_table() {
    let filter = FileFilter::MimeType("image/png".to_string());
    assert!(matches_filter(b"shot.png", &filter));
    assert!(!matches_filter(b"shot.jpg", &filter));
    assert!(!matches_filter(b"png", &filter));
}

#[test]
fn empty_pattern_matches_only_empty_name() {
    assert!(matches_single_pattern(b"", b""));
    assert!(!matches_single_pattern(b"a", b""));
    assert!(matches_single_pattern(b"", b"*"));
    assert!(matches_single_pattern(b"anything", b"*"));
}

#[test]
fn greedy_first_occurrence_is_used() {
    // The fixed run after a `*` is taken at its first occurrence, so a
    // second `.exe` later in the name cannot rescue the match.
    assert!(!matches_single_pattern(b"xx.exe.exe", b"*.exe"));
}

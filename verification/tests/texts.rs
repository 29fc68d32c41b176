use liblog::file_watcher::{FileState, FileWatcher};
use liblog::pyutf8str::{CompareOp, Utf8Str};
use liblog::stack::{find_range, parse_hex, parse_range};

fn lines(text: &str) -> Vec<Vec<u8>> {
    text.lines().map(|l| l.as_bytes().to_vec()).collect()
}

const MAPS: &str = "\
00400000-0040b000 r-xp 00000000 08:01 1234 /bin/cat
0060a000-0060b000 r--p 0000a000 08:01 1234 /bin/cat
not a line of the map
7ffe2a5c9000-7ffe2a5ea000 rw-p 00000000 00:00 0 [stack]
";

#[test]
fn region_of_an_address_is_found() {
    let lines = lines(MAPS);
    assert_eq!(find_range(&lines, 0x0040_0000), Some((0x0040_0000, 0x0040_b000)));
    assert_eq!(find_range(&lines, 0x0040_afff), Some((0x0040_0000, 0x0040_b000)));
    // The end of a region is not part of it.
    assert_eq!(find_range(&lines, 0x0040_b000), None);
    assert_eq!(
        find_range(&lines, 0x7ffe_2a5d_0000),
        Some((0x7ffe_2a5c_9000, 0x7ffe_2a5e_a000))
    );
    assert_eq!(find_range(&lines, 0), None);
    assert_eq!(find_range(&[], 5), None);
}

#[test]
fn region_is_the_first_word_of_a_line() {
    assert_eq!(parse_range(b"10-20 rest"), Some((0x10, 0x20)));
    assert_eq!(parse_range(b"  \tA-fF"), Some((10, 255)));
    assert_eq!(parse_range(b"+1-+2"), Some((1, 2)));
    assert_eq!(parse_range(b"1-2-zz"), Some((1, 2)));
    assert_eq!(parse_range(b""), None);
    assert_eq!(parse_range(b"   "), None);
    assert_eq!(parse_range(b"10"), None);
    assert_eq!(parse_range(b"10-"), None);
    assert_eq!(parse_range(b"-10"), None);
    assert_eq!(parse_range(b"10 -20"), None);
    assert_eq!(parse_range(b"1g-20"), None);
    assert_eq!(parse_range(b"10-2x"), None);
}

#[test]
fn hexadecimal_numbers_are_read() {
    assert_eq!(parse_hex(b"xx1f", 2, 4), Some(0x1f));
    assert_eq!(parse_hex(b"0", 0, 1), Some(0));
    assert_eq!(parse_hex(b"", 0, 0), None);
    assert_eq!(parse_hex(b"+", 0, 1), None);
    assert_eq!(parse_hex(b"-1", 0, 2), None);
    let max = format!("{:x}", usize::MAX);
    assert_eq!(parse_hex(max.as_bytes(), 0, max.len()), Some(usize::MAX));
    let over = format!("{}0", max);
    assert_eq!(parse_hex(over.as_bytes(), 0, over.len()), None);
}

#[test]
fn watcher_reads_a_file_when_its_state_changes() {
    let mut watcher = FileWatcher::new("Cargo.toml");
    assert_eq!(watcher.prev_state, None);
    let first = FileState { size: 10, modified_secs: 100, modified_nanos: 5 };
    assert!(watcher.try_refresh(first));
    assert!(!watcher.try_refresh(first));
    assert!(watcher.try_refresh(FileState { size: 11, ..first }));
    assert!(watcher.try_refresh(FileState { size: 11, modified_secs: 101, ..first }));
    assert!(!watcher.try_refresh(FileState { size: 11, modified_secs: 101, ..first }));
    assert!(watcher.try_refresh(FileState { modified_nanos: 6, ..first }));
    assert_eq!(watcher.prev_state, Some(FileState { modified_nanos: 6, ..first }));
    assert_eq!(watcher.path, "Cargo.toml");
}

fn printed(s: &str) -> String {
    Utf8Str::new(s.to_string()).repr().into_iter().collect()
}

#[test]
fn string_knows_its_characters() {
    let s = Utf8Str::new("na\u{ef}ve".to_string());
    assert_eq!(s.len(), 5);
    assert_eq!(s.as_str().len(), 6);
    assert!(s.to_bool());
    assert!(!Utf8Str::new(String::new()).to_bool());
    assert_eq!(s.code_units(), (1, vec![0x6e, 0x61, 0xef, 0x76, 0x65]));
    assert_eq!(Utf8Str::new("abc".to_string()).code_units(), (1, vec![0x61, 0x62, 0x63]));
    assert_eq!(Utf8Str::new("\u{100}a".to_string()).code_units(), (2, vec![0x100, 0x61]));
    assert_eq!(Utf8Str::new("\u{ffff}".to_string()).code_units(), (2, vec![0xffff]));
    assert_eq!(Utf8Str::new("a\u{1f600}".to_string()).code_units(), (4, vec![0x61, 0x1f600]));
    assert_eq!(Utf8Str::new(String::new()).code_units(), (1, vec![]));
}

#[test]
fn printed_form_escapes_quotes() {
    assert_eq!(printed("plain"), "'plain'");
    assert_eq!(printed(""), "''");
    assert_eq!(printed("it's"), "'it\\'s'");
    assert_eq!(printed("a\"b\\c"), "'a\\\"b\\\\c'");
}

#[test]
fn strings_compare_by_their_bytes() {
    let s = Utf8Str::new("abc".to_string());
    for (other, lt, eq) in [("abd", true, false), ("abc", false, true), ("ab", false, false), ("abcd", true, false), ("", false, false), ("b", true, false)] {
        assert_eq!(s.richcmp(other, CompareOp::Lt), lt, "{}", other);
        assert_eq!(s.richcmp(other, CompareOp::Le), lt || eq, "{}", other);
        assert_eq!(s.richcmp(other, CompareOp::Eq), eq, "{}", other);
        assert_eq!(s.richcmp(other, CompareOp::Ne), !eq, "{}", other);
        assert_eq!(s.richcmp(other, CompareOp::Gt), !lt && !eq, "{}", other);
        assert_eq!(s.richcmp(other, CompareOp::Ge), !lt, "{}", other);
    }
    assert!(Utf8Str::new(String::new()).richcmp("", CompareOp::Eq));
    assert!(Utf8Str::new("z".to_string()).richcmp("\u{e9}", CompareOp::Lt));
}

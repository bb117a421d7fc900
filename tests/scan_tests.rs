use ue_line_stats::classify::is_comment_or_empty;
use ue_line_stats::lines::count_lines;
use ue_line_stats::paths::{should_count, should_skip};
use ue_line_stats::scan::{is_included, scan, ScanResult, SourceFile};

fn comps(path: &str) -> Vec<String> {
    path.split('/').map(|s| s.to_string()).collect()
}

fn file(path: &str, content: &str) -> SourceFile {
    SourceFile { components: comps(path), content: Some(content.as_bytes().to_vec()) }
}

fn result(files: usize, total_lines: usize, code_lines: usize) -> ScanResult {
    ScanResult { files, total_lines, code_lines }
}

#[test]
fn empty_directory_counts_nothing() {
    assert_eq!(scan(&Vec::new()), Some(result(0, 0, 0)));
}

#[test]
fn new_result_is_zero() {
    assert_eq!(ScanResult::new(), result(0, 0, 0));
}

#[test]
fn excluded_directories_count_nothing() {
    let files = vec![
        file("Game/Intermediate/a.cpp", "int a;\n"),
        file("Game/Binaries/b.h", "int b;\n"),
        file("Game/Saved/c.inl", "int c;\n"),
        file("Game/.vs/d.cpp", "int d;\n"),
        file("Game/Saved/Logs/e.txt", "log\n"),
    ];
    assert_eq!(scan(&files), Some(result(0, 0, 0)));
}

#[test]
fn other_extensions_are_not_counted() {
    let files = vec![
        file("Game/Source/a.txt", "int a;\n"),
        file("Game/Source/b.cs", "int b;\n"),
        file("Game/Source/c.H", "int c;\n"),
        file("Game/Source/.h", "int d;\n"),
        file("Game/Source/cpp", "int e;\n"),
        file("Game/Source/f.cpp.bak", "int f;\n"),
    ];
    assert_eq!(scan(&files), Some(result(0, 0, 0)));
}

#[test]
fn source_extensions_are_counted() {
    assert!(should_count(&comps("Game/Source/a.h")));
    assert!(should_count(&comps("Game/Source/a.cpp")));
    assert!(should_count(&comps("Game/Source/a.inl")));
    assert!(should_count(&comps("Game/Source/a.b.cpp")));
    assert!(!should_count(&comps("Game/Source/a.hpp")));
    assert!(!should_count(&comps("Game/Source/a.")));
    assert!(!should_count(&Vec::new()));
}

#[test]
fn plugin_generated_directories_are_skipped() {
    assert!(should_skip(&comps("Game/Plugins/ThirdParty/x.cpp")));
    assert!(should_skip(&comps("Game/Plugins/Intermediate/x.cpp")));
    assert!(!should_skip(&comps("Game/Plugins/Foo/ThirdParty/x.cpp")));
    assert!(!should_skip(&comps("Game/ThirdParty/x.cpp")));
    assert!(!should_skip(&comps("Game/Source/Plugins")));
    assert!(should_skip(&comps("Saved")));
    assert!(!should_skip(&comps("Game/Savedx/a.cpp")));
    assert!(is_included(&comps("Game/Plugins/Foo/Source/x.cpp")));
    assert!(!is_included(&comps("Game/Plugins/ThirdParty/x.cpp")));
}

#[test]
fn total_lines_are_line_breaks() {
    assert_eq!(count_lines(b"a\nb\n\n"), (3, 2));
    assert_eq!(count_lines(b""), (0, 0));
    assert_eq!(count_lines(b"\n"), (1, 0));
}

#[test]
fn last_line_without_break_is_read() {
    assert_eq!(count_lines(b"a\nb"), (2, 2));
}

#[test]
fn carriage_returns_are_dropped() {
    assert_eq!(count_lines(b"a\r\n\r\n// c\r\n"), (3, 1));
}

#[test]
fn lines_that_are_not_text_are_not_read() {
    assert_eq!(count_lines(b"int a;\n\xff\xfe\nint b;\n"), (2, 2));
    assert_eq!(count_lines(b"\xc3\n\xc3\xa9\n"), (1, 1));
}

#[test]
fn code_lines_do_not_exceed_total() {
    let (total, code) = count_lines(b"x\n// y\n\n  z\n/* w */\n");
    assert_eq!((total, code), (5, 2));
    assert!(code <= total);
}

#[test]
fn blank_and_comment_lines_are_not_code() {
    assert!(is_comment_or_empty(""));
    assert!(is_comment_or_empty("   \t "));
    assert!(is_comment_or_empty("// note"));
    assert!(is_comment_or_empty("    /* block"));
    assert!(is_comment_or_empty(" * continued"));
    assert!(is_comment_or_empty("*/"));
    assert!(is_comment_or_empty("\u{3000}\u{a0}// wide space"));
    assert!(is_comment_or_empty("\t//"));
}

#[test]
fn other_lines_are_code() {
    assert!(!is_comment_or_empty("int x;"));
    assert!(!is_comment_or_empty("/ x"));
    assert!(!is_comment_or_empty("/"));
    assert!(!is_comment_or_empty("  a // b"));
    assert!(!is_comment_or_empty("#include <x.h>"));
}

#[test]
fn ten_lines_with_three_blank_and_two_comments() {
    let content = "#pragma once\n\nint a;\n// one\nint b;\n\n/* two */\nint c;\n\nint d;\n";
    let files = vec![file("Game/Source/Game.h", content)];
    assert_eq!(scan(&files), Some(result(1, 10, 5)));
}

#[test]
fn unreadable_files_are_skipped() {
    let files = vec![
        SourceFile { components: comps("Game/Source/a.cpp"), content: None },
        file("Game/Source/b.cpp", "int b;\n"),
    ];
    assert_eq!(scan(&files), Some(result(1, 1, 1)));
}

#[test]
fn scan_adds_up_files() {
    let files = vec![
        file("Game/Source/a.cpp", "int a;\n// a\n"),
        file("Game/Intermediate/b.cpp", "int b;\n"),
        file("Game/Source/c.inl", "\nint c;\nint d;"),
        file("Game/Source/d.txt", "text\n"),
    ];
    assert_eq!(scan(&files), Some(result(2, 5, 3)));
}

#[test]
fn record_file_adds_to_the_counts() {
    let mut r = ScanResult::new();
    assert!(r.record_file(&comps("Game/Source/a.cpp"), Some(b"int a;\n\n")));
    assert_eq!(r, result(1, 2, 1));
    assert!(r.record_file(&comps("Game/Source/b.txt"), Some(b"int b;\n")));
    assert!(r.record_file(&comps("Game/Source/c.cpp"), None));
    assert_eq!(r, result(1, 2, 1));
}

#[test]
fn record_file_refuses_overflow() {
    let mut r = result(3, usize::MAX, 7);
    assert!(!r.record_file(&comps("Game/Source/a.cpp"), Some(b"int a;\n")));
    assert_eq!(r, result(3, usize::MAX, 7));
    assert!(r.record_file(&comps("Game/Source/b.cpp"), Some(b"\n")) == false);
    assert!(r.record_file(&comps("Game/Source/c.cpp"), Some(b"")));
    assert_eq!(r, result(4, usize::MAX, 7));
}

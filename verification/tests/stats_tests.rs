use codstts::analyzer::ProjectAnalyzer;
use codstts::classifier::analyze_content;
use codstts::error::CodeStatsError;
use codstts::stats::{FileStats, LanguageStats, LineStats};

fn fs(bytes: usize, total: usize, code: usize, comment: usize, blank: usize) -> FileStats {
    FileStats { bytes, lines: LineStats { total, code, comment, blank } }
}

fn entry<'a>(stats: &'a LanguageStats, lang: &str) -> &'a FileStats {
    &stats
        .stats
        .iter()
        .find(|(k, _)| k.as_slice() == lang.as_bytes())
        .expect("language present")
        .1
}

#[test]
fn update_accumulates_per_language_sums() {
    let mut s = LanguageStats::new();
    s.update(b"Rust", fs(100, 10, 7, 2, 1));
    s.update(b"Rust", fs(50, 5, 3, 1, 1));
    s.update(b"Python", fs(30, 3, 2, 0, 1));
    assert_eq!(s.total_files, 3);
    let rust = entry(&s, "Rust");
    assert_eq!(rust.bytes, 150);
    assert_eq!(rust.lines.total, 15);
    assert_eq!(rust.lines.code, 10);
    assert_eq!(rust.lines.comment, 3);
    assert_eq!(rust.lines.blank, 2);
    let py = entry(&s, "Python");
    assert_eq!(py.bytes, 30);
    assert_eq!(py.lines.total, 3);
}

#[test]
fn total_files_is_sum_over_languages() {
    let mut s = LanguageStats::new();
    s.update(b"Rust", fs(1, 1, 1, 0, 0));
    s.update(b"Go", fs(1, 1, 1, 0, 0));
    s.update(b"Rust", fs(1, 1, 1, 0, 0));
    s.update(b"Other", fs(1, 1, 1, 0, 0));
    // two Rust files, one Go, one Other
    assert_eq!(s.stats.len(), 3);
    assert_eq!(s.total_files, 4);
}

#[test]
fn merge_order_does_not_matter() {
    let pairs: Vec<(&[u8], FileStats)> = vec![
        (b"Rust", fs(10, 2, 1, 1, 0)),
        (b"Go", fs(20, 4, 3, 0, 1)),
        (b"Rust", fs(5, 1, 1, 0, 0)),
        (b"Other", fs(7, 2, 0, 1, 1)),
    ];
    let mut forward = LanguageStats::new();
    for (lang, f) in &pairs {
        forward.update(lang, *f);
    }
    let mut backward = LanguageStats::new();
    for (lang, f) in pairs.iter().rev() {
        backward.update(lang, *f);
    }
    assert_eq!(forward.total_files, backward.total_files);
    for lang in ["Rust", "Go", "Other"] {
        let a = entry(&forward, lang);
        let b = entry(&backward, lang);
        assert_eq!(a.bytes, b.bytes);
        assert_eq!(a.lines.total, b.lines.total);
        assert_eq!(a.lines.code, b.lines.code);
        assert_eq!(a.lines.comment, b.lines.comment);
        assert_eq!(a.lines.blank, b.lines.blank);
    }
}

#[test]
fn process_file_merges_and_lists_unrecognized() {
    let a = ProjectAnalyzer::new();
    let mut stats = LanguageStats::new();
    let mut other_files: Vec<Vec<u8>> = Vec::new();

    a.process_file(b"main.rs", b"fn main() {}\n", &mut stats, &mut other_files);
    a.process_file(b"script.unknownext", b"data\n", &mut stats, &mut other_files);

    assert_eq!(stats.total_files, 2);
    let rust = entry(&stats, "Rust");
    assert_eq!(rust.bytes, 13);
    assert_eq!(rust.lines.code, 1);
    let other = entry(&stats, "Other");
    assert_eq!(other.bytes, 5);
    assert_eq!(other_files, vec![b"script.unknownext".to_vec()]);
}

#[test]
fn recognized_files_are_not_listed_as_unrecognized() {
    let a = ProjectAnalyzer::new();
    let mut stats = LanguageStats::new();
    let mut other_files: Vec<Vec<u8>> = Vec::new();
    a.process_file(b"lib.py", b"# comment\nx = 1\n", &mut stats, &mut other_files);
    assert!(other_files.is_empty());
    let py = entry(&stats, "Python");
    assert_eq!(py.lines.comment, 1);
    assert_eq!(py.lines.code, 1);
}

#[test]
fn classifier_feeds_aggregator_consistently() {
    let content = b"// top\n\nfn f() {}\n";
    let f = analyze_content(content);
    let mut s = LanguageStats::new();
    s.update(b"Rust", f);
    let rust = entry(&s, "Rust");
    assert_eq!(rust.bytes, content.len());
    assert_eq!(rust.lines.total, 3);
    assert_eq!(rust.lines.comment, 1);
    assert_eq!(rust.lines.blank, 1);
    assert_eq!(rust.lines.code, 1);
}

#[test]
fn error_kinds_carry_their_message() {
    let e = CodeStatsError::Io(String::from("file vanished"));
    assert_eq!(e.message(), "file vanished");
    let e = CodeStatsError::EncodingError(String::from("not utf-8"));
    assert_eq!(e.message(), "not utf-8");
    let e = CodeStatsError::Config(String::from("bad table"));
    assert_eq!(e.message(), "bad table");
}

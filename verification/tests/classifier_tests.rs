use codstts::classifier::analyze_content;
use codstts::stats::{FileStats, LineStats};

fn counts(content: &str) -> (usize, usize, usize, usize, usize) {
    let fs = analyze_content(content.as_bytes());
    (fs.bytes, fs.lines.total, fs.lines.code, fs.lines.comment, fs.lines.blank)
}

#[test]
fn blank_and_code_lines() {
    let (bytes, total, code, comment, blank) = counts("a\n\nb\n");
    assert_eq!(bytes, 5);
    assert_eq!(total, 3);
    assert_eq!(blank, 1);
    assert_eq!(code, 2);
    assert_eq!(comment, 0);
}

#[test]
fn line_comment_marker() {
    let (_, total, code, comment, blank) = counts("// hello\ncode();\n");
    assert_eq!(total, 2);
    assert_eq!(comment, 1);
    assert_eq!(code, 1);
    assert_eq!(blank, 0);
}

#[test]
fn block_comment_span() {
    let (_, total, code, comment, blank) = counts("/* start\nstill comment\nend */\ncode();\n");
    assert_eq!(total, 4);
    assert_eq!(comment, 3);
    assert_eq!(code, 1);
    assert_eq!(blank, 0);
}

#[test]
fn hash_comment_marker() {
    let (_, total, code, comment, _) = counts("# shebang\nx=1\n");
    assert_eq!(total, 2);
    assert_eq!(comment, 1);
    assert_eq!(code, 1);
}

#[test]
fn total_is_sum_of_buckets() {
    for content in [
        "",
        "\n",
        "x",
        "x\n",
        "  \t \n\n// a\n/* b */\nc\n",
        "/* open\nmiddle\n*/ tail code\nplain\n",
    ] {
        let fs = analyze_content(content.as_bytes());
        assert_eq!(fs.lines.total, fs.lines.code + fs.lines.comment + fs.lines.blank);
        assert_eq!(fs.bytes, content.len());
    }
}

#[test]
fn trailing_newline_opens_no_extra_line() {
    let with = analyze_content(b"a\nb\n");
    let without = analyze_content(b"a\nb");
    assert_eq!(with.lines.total, 2);
    assert_eq!(without.lines.total, 2);
}

#[test]
fn block_opener_enters_state_even_when_closed_on_same_line() {
    // The opening line both opens and closes, but the state machine
    // still enters the block: the following line counts as comment.
    let fs = analyze_content(b"/* a */ x\ny\n");
    assert_eq!(fs.lines.comment, 2);
    assert_eq!(fs.lines.code, 0);
}

#[test]
fn closing_line_counts_as_comment_not_code() {
    let fs = analyze_content(b"/* open\nend */ code();\nreal();\n");
    assert_eq!(fs.lines.comment, 2);
    assert_eq!(fs.lines.code, 1);
}

#[test]
fn lines_are_trimmed_before_classification() {
    let fs = analyze_content(b"   // indented comment\n\t#tab comment\n   \n  x\n");
    assert_eq!(fs.lines.comment, 2);
    assert_eq!(fs.lines.blank, 1);
    assert_eq!(fs.lines.code, 1);
}

#[test]
fn empty_content_counts_nothing() {
    let fs = analyze_content(b"");
    assert_eq!(fs.bytes, 0);
    assert_eq!(fs.lines.total, 0);
}

#[test]
fn default_stats_are_zero() {
    let ls = LineStats::default();
    assert_eq!(ls.total, 0);
    assert_eq!(ls.code, 0);
    assert_eq!(ls.comment, 0);
    assert_eq!(ls.blank, 0);
    let fs = FileStats::default();
    assert_eq!(fs.bytes, 0);
    assert_eq!(fs.lines.total, 0);
}

//! The line classifier: a single forward pass over a file's content that
//! sorts every line into exactly one of code, comment or blank, tracking
//! one boolean block-comment state.
//!
//! The classifier is deliberately a generic heuristic: it knows the
//! markers `//`, `#`, `/*` and `*/` and nothing of any particular
//! language's grammar.

use vstd::prelude::*;

use crate::stats::{FileStats, LineStats};

verus! {

/// ASCII whitespace, the characters stripped from both ends of a line
/// before it is classified.
pub open spec fn is_space(b: u8) -> bool {
    b == 32 || (9 <= b && b <= 13)
}

pub open spec fn trim_front(l: Seq<u8>) -> Seq<u8>
    decreases l.len(),
{
    if l.len() > 0 && is_space(l[0]) {
        trim_front(l.drop_first())
    } else {
        l
    }
}

pub open spec fn trim_back(l: Seq<u8>) -> Seq<u8>
    decreases l.len(),
{
    if l.len() > 0 && is_space(l.last()) {
        trim_back(l.drop_last())
    } else {
        l
    }
}

/// A line with leading and trailing whitespace removed.
pub open spec fn spec_trim(l: Seq<u8>) -> Seq<u8> {
    trim_back(trim_front(l))
}

/// Index of the first newline in `c`, or `-1` when there is none.
pub open spec fn first_nl(c: Seq<u8>) -> int
    decreases c.len(),
{
    if c.len() == 0 {
        -1
    } else if c[0] == 10 {
        0
    } else {
        let r = first_nl(c.drop_first());
        if r < 0 {
            -1
        } else {
            r + 1
        }
    }
}

pub proof fn lemma_first_nl_bounds(c: Seq<u8>)
    ensures
        -1 <= first_nl(c) < c.len(),
        first_nl(c) >= 0 ==> c[first_nl(c)] == 10,
        forall|k: int| 0 <= k < first_nl(c) ==> c[k] != 10,
        first_nl(c) == -1 ==> forall|k: int| 0 <= k < c.len() ==> c[k] != 10,
    decreases c.len(),
{
    if c.len() > 0 && c[0] != 10 {
        let rest = c.drop_first();
        lemma_first_nl_bounds(rest);
        assert(forall|k: int| 0 <= k < rest.len() ==> #[trigger] rest[k] == c[k + 1]);
        let f = first_nl(c);
        let fr = first_nl(rest);
        if fr < 0 {
            assert forall|k: int| 0 <= k < c.len() implies c[k] != 10 by {
                if k > 0 {
                    assert(rest[k - 1] != 10);
                }
            }
        } else {
            assert(c[f] == rest[fr]);
            assert forall|k: int| 0 <= k < f implies c[k] != 10 by {
                if k > 0 {
                    assert(rest[k - 1] != 10);
                }
            }
        }
    }
}

/// `first_nl` is pinned by its characteristic property: no newline before
/// `m`, and either a newline at `m` or `m` at the end of `c`.
pub proof fn lemma_first_nl_is(c: Seq<u8>, m: int)
    requires
        0 <= m <= c.len(),
        forall|k: int| 0 <= k < m ==> c[k] != 10,
        m < c.len() ==> c[m] == 10,
    ensures
        first_nl(c) == if m < c.len() {
            m
        } else {
            -1
        },
{
    lemma_first_nl_bounds(c);
    let f = first_nl(c);
    if m < c.len() {
        if f == -1 {
            assert(c[m] != 10);
        } else if f < m {
            assert(c[f] != 10);
        } else if f > m {
            assert(c[m] != 10);
        }
    } else {
        if f >= 0 {
            assert(c[f] != 10);
        }
    }
}

/// The newline-delimited segments of `c`. A trailing newline closes the
/// last line; it does not open an additional empty one.
pub open spec fn spec_lines(c: Seq<u8>) -> Seq<Seq<u8>>
    decreases c.len(),
    via spec_lines_dec
{
    if c.len() == 0 {
        Seq::empty()
    } else {
        let i = first_nl(c);
        if i < 0 {
            seq![c]
        } else {
            seq![c.take(i)] + spec_lines(c.skip(i + 1))
        }
    }
}

#[via_fn]
proof fn spec_lines_dec(c: Seq<u8>) {
    lemma_first_nl_bounds(c);
}

/// Every line consumes at least one byte of the content (its text or its
/// terminator), so there are never more lines than bytes.
pub proof fn lemma_lines_le_bytes(c: Seq<u8>)
    ensures
        spec_lines(c).len() <= c.len(),
    decreases c.len(),
{
    lemma_first_nl_bounds(c);
    if c.len() > 0 {
        let i = first_nl(c);
        if i >= 0 {
            lemma_lines_le_bytes(c.skip(i + 1));
        }
    }
}

/// A line that opens an ordinary comment: `//` or `#` after trimming.
pub open spec fn is_line_comment(t: Seq<u8>) -> bool {
    (t.len() >= 1 && t[0] == '#' as u8) || (t.len() >= 2 && t[0] == '/' as u8 && t[1] == '/' as u8)
}

/// A line that opens a block comment: `/*` after trimming.
pub open spec fn is_block_start(t: Seq<u8>) -> bool {
    t.len() >= 2 && t[0] == '/' as u8 && t[1] == '*' as u8
}

/// Whether the closing marker `*/` occurs anywhere in the line.
pub open spec fn has_block_end(t: Seq<u8>) -> bool {
    exists|i: int| 0 <= i && i + 2 <= t.len() && #[trigger] t[i] == '*' as u8 && t[i + 1] == '/' as u8
}

/// How one trimmed line is classified, given the block-comment state.
pub enum LineKind {
    Code,
    Comment,
    Blank,
}

pub open spec fn line_kind(t: Seq<u8>, in_block: bool) -> LineKind {
    if t.len() == 0 {
        LineKind::Blank
    } else if in_block {
        LineKind::Comment
    } else if is_line_comment(t) {
        LineKind::Comment
    } else if is_block_start(t) {
        LineKind::Comment
    } else {
        LineKind::Code
    }
}

/// The block-comment state after one trimmed line. A closing `*/` leaves
/// the state; an opening `/*` enters it, even when the same line also
/// holds the closing marker.
pub open spec fn next_state(t: Seq<u8>, in_block: bool) -> bool {
    if t.len() == 0 {
        in_block
    } else if in_block {
        !has_block_end(t)
    } else if is_line_comment(t) {
        false
    } else if is_block_start(t) {
        true
    } else {
        false
    }
}

/// Counts of classified lines.
pub struct Tally {
    pub code: int,
    pub comment: int,
    pub blank: int,
}

pub open spec fn zero_tally() -> Tally {
    Tally { code: 0, comment: 0, blank: 0 }
}

pub open spec fn tally_plus(t: Tally, k: LineKind) -> Tally {
    match k {
        LineKind::Code => Tally { code: t.code + 1, comment: t.comment, blank: t.blank },
        LineKind::Comment => Tally { code: t.code, comment: t.comment + 1, blank: t.blank },
        LineKind::Blank => Tally { code: t.code, comment: t.comment, blank: t.blank + 1 },
    }
}

/// The classifier's result over a sequence of lines, starting in the
/// given block-comment state.
pub open spec fn spec_tally(lines: Seq<Seq<u8>>, in_block: bool) -> Tally
    decreases lines.len(),
{
    if lines.len() == 0 {
        zero_tally()
    } else {
        let t = spec_trim(lines[0]);
        tally_plus(
            spec_tally(lines.drop_first(), next_state(t, in_block)),
            line_kind(t, in_block),
        )
    }
}

/// Every line falls into exactly one bucket: the three counts always sum
/// to the number of lines.
pub proof fn lemma_tally_total(lines: Seq<Seq<u8>>, in_block: bool)
    ensures
        ({
            let t = spec_tally(lines, in_block);
            t.code + t.comment + t.blank == lines.len()
        }),
    decreases lines.len(),
{
    if lines.len() > 0 {
        lemma_tally_total(lines.drop_first(), next_state(spec_trim(lines[0]), in_block));
    }
}

pub proof fn lemma_trim_front_is(l: Seq<u8>, p: int)
    requires
        0 <= p <= l.len(),
        forall|k: int| 0 <= k < p ==> is_space(l[k]),
        p < l.len() ==> !is_space(l[p]),
    ensures
        trim_front(l) == l.skip(p),
    decreases p,
{
    if p == 0 {
        assert(l.skip(0) =~= l);
    } else {
        let rest = l.drop_first();
        assert(forall|k: int| 0 <= k < rest.len() ==> #[trigger] rest[k] == l[k + 1]);
        lemma_trim_front_is(rest, p - 1);
        assert(rest.skip(p - 1) =~= l.skip(p));
    }
}

pub proof fn lemma_trim_back_is(l: Seq<u8>, q: int)
    requires
        0 <= q <= l.len(),
        forall|k: int| q <= k < l.len() ==> is_space(l[k]),
        q > 0 ==> !is_space(l[q - 1]),
    ensures
        trim_back(l) == l.take(q),
    decreases l.len() - q,
{
    if q == l.len() {
        assert(l.take(q) =~= l);
    } else {
        assert(is_space(l.last()));
        let rest = l.drop_last();
        lemma_trim_back_is(rest, q);
        assert(rest.take(q) =~= l.take(q));
    }
}

/// Trimming a line is the same as cutting it to the index range that an
/// index scan from each end produces.
pub proof fn lemma_trim_is(l: Seq<u8>, p: int, q: int)
    requires
        0 <= p <= q <= l.len(),
        forall|k: int| 0 <= k < p ==> is_space(l[k]),
        forall|k: int| q <= k < l.len() ==> is_space(l[k]),
        p < l.len() ==> !is_space(l[p]),
        q > p ==> !is_space(l[q - 1]),
    ensures
        spec_trim(l) == l.subrange(p, q),
{
    lemma_trim_front_is(l, p);
    let m = l.skip(p);
    assert(forall|k: int| 0 <= k < m.len() ==> #[trigger] m[k] == l[k + p]);
    lemma_trim_back_is(m, q - p);
    assert(m.take(q - p) =~= l.subrange(p, q));
}

/// Executable form of `is_space`.
pub fn is_space_byte(b: u8) -> (r: bool)
    ensures
        r == is_space(b),
{
    b == 32 || (9 <= b && b <= 13)
}

/// Whether `*/` occurs anywhere in `t`.
pub fn find_block_end(t: &[u8]) -> (r: bool)
    ensures
        r == has_block_end(t@),
{
    let n: usize = t.len();
    if n < 2 {
        return false;
    }
    let mut i: usize = 0;
    while i < n - 1
        invariant
            n == t@.len(),
            2 <= n,
            0 <= i,
            i + 2 <= n + 1,
            forall|k: int| 0 <= k && k + 2 <= i + 1 && k + 2 <= n ==> !(#[trigger] t@[k] == '*' as u8
                && t@[k + 1] == '/' as u8),
        decreases n - i,
    {
        if t[i] == 42 && t[i + 1] == 47 {
            proof {
                assert(0 <= i as int && i as int + 2 <= t@.len() && t@[i as int] == '*' as u8
                    && t@[i as int + 1] == '/' as u8);
            }
            return true;
        }
        i = i + 1;
    }
    false
}

/// The classifier's whole result for one file, as one model value.
pub open spec fn spec_file_stats(c: Seq<u8>) -> crate::stats::StatsModel {
    let t = spec_tally(spec_lines(c), false);
    crate::stats::StatsModel {
        bytes: c.len() as int,
        total: spec_lines(c).len() as int,
        code: t.code,
        comment: t.comment,
        blank: t.blank,
    }
}

/// Classifies a file's content, line by line: one forward pass, splitting
/// at newlines, trimming each line and sorting it into exactly one of
/// code, comment or blank while tracking the block-comment state. The
/// byte count is the raw length of the content.
#[verifier::loop_isolation(false)]
#[verifier::rlimit(100)]
pub fn analyze_content(content: &[u8]) -> (r: FileStats)
    ensures
        r@ == spec_file_stats(content@),
        r.bytes == content@.len(),
        r.lines.total == spec_lines(content@).len(),
        r.lines.code + r.lines.comment + r.lines.blank == r.lines.total,
        ({
            let t = spec_tally(spec_lines(content@), false);
            r.lines.code == t.code && r.lines.comment == t.comment && r.lines.blank == t.blank
        }),
{
    let n: usize = content.len();
    let mut pos: usize = 0;
    let mut total: usize = 0;
    let mut code: usize = 0;
    let mut comment: usize = 0;
    let mut blank: usize = 0;
    let mut in_block: bool = false;
    proof {
        assert(content@.skip(0) =~= content@);
    }
    while pos < n
        invariant
            0 <= pos <= n,
            total <= pos,
            code + comment + blank == total,
            spec_lines(content@).len() == total + spec_lines(content@.skip(pos as int)).len(),
            ({
                let t_all = spec_tally(spec_lines(content@), false);
                let t_rem = spec_tally(spec_lines(content@.skip(pos as int)), in_block);
                t_all.code == code + t_rem.code && t_all.comment == comment + t_rem.comment
                    && t_all.blank == blank + t_rem.blank
            }),
        decreases n - pos,
    {
        let ghost rem = content@.skip(pos as int);

        // Find the end of the current line.
        let mut j: usize = pos;
        while j < n && content[j] != 10
            invariant
                pos <= j <= n,
                forall|k: int| pos <= k < j ==> content@[k] != 10,
            decreases n - j,
        {
            j = j + 1;
        }
        proof {
            assert(forall|k: int| 0 <= k < rem.len() ==> #[trigger] rem[k] == content@[k + pos]);
            lemma_first_nl_is(rem, j - pos);
        }
        let ghost line = content@.subrange(pos as int, j as int);
        let ghost next_pos: int = if j < n {
            j + 1
        } else {
            n as int
        };
        let ghost rest_lines = spec_lines(content@.skip(next_pos));
        proof {
            if j < n {
                assert(rem.take(j - pos) =~= line);
                assert(rem.skip(j - pos + 1) =~= content@.skip(next_pos));
            } else {
                assert(rem =~= line);
                assert(content@.skip(next_pos) =~= Seq::<u8>::empty());
                assert(spec_lines(rem) =~= seq![line] + rest_lines);
            }
            assert(spec_lines(rem) == seq![line] + rest_lines);
            assert(spec_lines(rem)[0] == line);
            assert(spec_lines(rem).drop_first() =~= rest_lines);
        }

        // Trim the line.
        let mut a: usize = pos;
        while a < j && is_space_byte(content[a])
            invariant
                pos <= a <= j,
                forall|k: int| pos <= k < a ==> is_space(content@[k]),
            decreases j - a,
        {
            a = a + 1;
        }
        let mut b: usize = j;
        while b > a && is_space_byte(content[b - 1])
            invariant
                a <= b <= j,
                forall|k: int| b <= k < j ==> is_space(content@[k]),
            decreases b,
        {
            b = b - 1;
        }
        let ghost t = spec_trim(line);
        proof {
            assert(forall|k: int| 0 <= k < line.len() ==> #[trigger] line[k] == content@[k + pos]);
            lemma_trim_is(line, a - pos, b - pos);
            assert(t =~= content@.subrange(a as int, b as int));
        }

        // Classify the trimmed line.
        let tlen: usize = b - a;
        total = total + 1;
        if tlen == 0 {
            blank = blank + 1;
            proof {
                assert(line_kind(t, in_block) == LineKind::Blank);
                assert(next_state(t, in_block) == in_block);
            }
        } else if in_block {
            comment = comment + 1;
            proof {
                assert(line_kind(t, in_block) == LineKind::Comment);
            }
            let closes = find_block_end(&content[a..b]);
            proof {
                assert(next_state(t, in_block) == !closes);
            }
            if closes {
                in_block = false;
            }
        } else {
            proof {
                assert(t.len() == tlen);
                assert(t[0] == content@[a as int]);
                assert(tlen >= 2 ==> t[1] == content@[a as int + 1]);
            }
            let c0 = content[a];
            let line_marker = c0 == 35 || (tlen >= 2 && c0 == 47 && content[a + 1] == 47);
            if line_marker {
                comment = comment + 1;
                proof {
                    assert(is_line_comment(t));
                    assert(line_kind(t, in_block) == LineKind::Comment);
                    assert(next_state(t, in_block) == false);
                }
            } else if tlen >= 2 && c0 == 47 && content[a + 1] == 42 {
                comment = comment + 1;
                in_block = true;
                proof {
                    assert(!is_line_comment(t));
                    assert(is_block_start(t));
                }
            } else {
                code = code + 1;
                proof {
                    assert(!is_line_comment(t));
                    assert(!is_block_start(t));
                    assert(line_kind(t, false) == LineKind::Code);
                }
            }
        }
        pos = if j < n {
            j + 1
        } else {
            n
        };
    }
    proof {
        assert(content@.skip(n as int) =~= Seq::<u8>::empty());
        lemma_tally_total(spec_lines(content@), false);
    }
    FileStats { bytes: n, lines: LineStats { total, code, comment, blank } }
}

} // verus!

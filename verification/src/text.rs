//! Texts as bytes: positions by line and column, range edits, and the point
//! from which an edited text differs from the one before.

use crate::util::Span;
use vstd::prelude::*;

verus! {

/// A position in a text: a line, counted from 0, and a byte offset in it.
#[derive(Clone, Copy, Debug, PartialEq, Eq, Structural)]
pub struct Position {
    pub line: u32,
    pub character: u32,
}

/// The text between two positions.
#[derive(Clone, Copy, Debug, PartialEq, Eq, Structural)]
pub struct Range {
    pub start: Position,
    pub end: Position,
}

/// A change to a text: `text` takes the place of what `range` covers, or of
/// the whole text where there is no range.
#[derive(Debug)]
pub struct TextEdit {
    pub range: Option<Range>,
    pub text: Vec<u8>,
}

/// The byte that ends a line.
pub const LINE_FEED: u8 = 10;

/// The offset reached from `from` after `lines` more line feeds have been
/// passed: the start of the line that many lines further down. `None` where
/// the text has too few lines.
pub open spec fn skip_lines(text: Seq<u8>, from: int, lines: nat) -> Option<int>
    decreases text.len() - from,
{
    if lines == 0 {
        Some(from)
    } else if from >= text.len() {
        None
    } else if text[from] == LINE_FEED {
        skip_lines(text, from + 1, (lines - 1) as nat)
    } else {
        skip_lines(text, from + 1, lines)
    }
}

/// The offset of `pos` in `text`: the start of its line plus its column.
/// `None` where the text does not have that line, or where the offset would
/// lie behind the end of the text.
pub open spec fn spec_to_idx(text: Seq<u8>, pos: Position) -> Option<int> {
    match skip_lines(text, 0, pos.line as nat) {
        Some(s) => if s + pos.character <= text.len() {
            Some(s + pos.character)
        } else {
            None
        },
        None => None,
    }
}

/// The offset of `pos` in `text`, and the end of the text for a position
/// that is not in it.
pub open spec fn offset_or_end(text: Seq<u8>, pos: Position) -> int {
    match spec_to_idx(text, pos) {
        Some(i) => i,
        None => text.len() as int,
    }
}

/// The offsets between which an edit replaces the text. An end before the
/// start counts as the start.
pub open spec fn edit_bounds(text: Seq<u8>, range: Option<Range>) -> (int, int) {
    match range {
        None => (0, text.len() as int),
        Some(r) => {
            let s = offset_or_end(text, r.start);
            let e = offset_or_end(text, r.end);
            (
                s,
                if e < s {
                    s
                } else {
                    e
                },
            )
        },
    }
}

/// The text after one edit.
pub open spec fn spliced(text: Seq<u8>, range: Option<Range>, new: Seq<u8>) -> Seq<u8> {
    let (s, e) = edit_bounds(text, range);
    text.take(s) + new + text.skip(e)
}

/// The text after a sequence of edits, each applied to the result of those
/// before it.
pub open spec fn spliced_all(text: Seq<u8>, edits: Seq<TextEdit>) -> Seq<u8>
    decreases edits.len(),
{
    if edits.len() == 0 {
        text
    } else {
        spliced(spliced_all(text, edits.drop_last()), edits.last().range, edits.last().text@)
    }
}

/// `r` is the point from which `b` differs from `a`: both agree before `r`,
/// and at `r` one of them ends or they hold different bytes.
pub open spec fn diverges_at(a: Seq<u8>, b: Seq<u8>, r: int) -> bool {
    &&& 0 <= r <= a.len()
    &&& r <= b.len()
    &&& forall|i: int| 0 <= i < r ==> a[i] == b[i]
    &&& (r < a.len() && r < b.len() ==> a[r] != b[r])
}

/// Two texts diverge at one point only.
pub proof fn lemma_divergence_unique(a: Seq<u8>, b: Seq<u8>, r: int, s: int)
    requires
        diverges_at(a, b, r),
        diverges_at(a, b, s),
    ensures
        r == s,
{
    if r < s {
        assert(a[r] == b[r]);
    }
    if s < r {
        assert(a[s] == b[s]);
    }
}

/// The offset of `pos` in `text`.
pub fn to_idx(text: &Vec<u8>, pos: Position) -> (r: Option<usize>)
    ensures
        match r {
            Some(i) => spec_to_idx(text@, pos) == Some(i as int),
            None => spec_to_idx(text@, pos) is None,
        },
{
    let mut i: usize = 0;
    let mut line: u32 = 0;
    while line < pos.line
        invariant
            i <= text.len(),
            line <= pos.line,
            skip_lines(text@, 0, pos.line as nat) == skip_lines(
                text@,
                i as int,
                (pos.line - line) as nat,
            ),
        decreases text.len() - i,
    {
        if i >= text.len() {
            return None;
        }
        if text[i] == LINE_FEED {
            line = line + 1;
        }
        i = i + 1;
    }
    let c = pos.character as usize;
    if c <= text.len() - i {
        Some(i + c)
    } else {
        None
    }
}

/// The offset of `pos` in `text`, and the end of the text for a position
/// that is not in it.
pub fn to_idx_or_end(text: &Vec<u8>, pos: Position) -> (r: usize)
    ensures
        r == offset_or_end(text@, pos),
        r <= text@.len(),
{
    match to_idx(text, pos) {
        Some(i) => i,
        None => text.len(),
    }
}

/// Appends `src[from..to]` to `dst`.
fn push_range(dst: &mut Vec<u8>, src: &Vec<u8>, from: usize, to: usize)
    requires
        from <= to <= src@.len(),
    ensures
        final(dst)@ == old(dst)@ + src@.subrange(from as int, to as int),
{
    let ghost before = dst@;
    let mut i: usize = from;
    assert(src@.subrange(from as int, from as int) =~= Seq::<u8>::empty());
    assert(before + Seq::<u8>::empty() =~= before);
    while i < to
        invariant
            from <= i <= to <= src@.len(),
            dst@ == before + src@.subrange(from as int, i as int),
        decreases to - i,
    {
        dst.push(src[i]);
        assert(src@.subrange(from as int, i + 1) =~= src@.subrange(from as int, i as int).push(
            src@[i as int],
        ));
        assert(dst@ =~= before + src@.subrange(from as int, i + 1));
        i = i + 1;
    }
}

/// The text after one edit.
pub fn apply_change(text: &Vec<u8>, edit: &TextEdit) -> (new: Vec<u8>)
    ensures
        new@ == spliced(text@, edit.range, edit.text@),
{
    let (s, e) = match edit.range {
        None => (0, text.len()),
        Some(r) => {
            let s = to_idx_or_end(text, r.start);
            let e = to_idx_or_end(text, r.end);
            (
                s,
                if e < s {
                    s
                } else {
                    e
                },
            )
        },
    };
    let mut new: Vec<u8> = Vec::new();
    push_range(&mut new, text, 0, s);
    push_range(&mut new, &edit.text, 0, edit.text.len());
    push_range(&mut new, text, e, text.len());
    proof {
        assert(text@.subrange(0, s as int) =~= text@.take(s as int));
        assert(edit.text@.subrange(0, edit.text@.len() as int) =~= edit.text@);
        assert(text@.subrange(e as int, text@.len() as int) =~= text@.skip(e as int));
        assert(new@ =~= text@.take(s as int) + edit.text@ + text@.skip(e as int));
    }
    new
}

/// The point from which `b` differs from `a`.
pub fn first_divergence(a: &Vec<u8>, b: &Vec<u8>) -> (r: usize)
    ensures
        diverges_at(a@, b@, r as int),
{
    let mut i: usize = 0;
    while i < a.len() && i < b.len() && a[i] == b[i]
        invariant
            i <= a.len(),
            i <= b.len(),
            forall|j: int| 0 <= j < i ==> a@[j] == b@[j],
        decreases a.len() - i,
    {
        i = i + 1;
    }
    i
}

/// Applies `edits` to `text`, one after the other. Returns the point from
/// which the result differs from `text`, and the result.
pub fn apply_changes(text: &Vec<u8>, edits: &Vec<TextEdit>) -> (r: (usize, Vec<u8>))
    ensures
        r.1@ == spliced_all(text@, edits@),
        diverges_at(text@, r.1@, r.0 as int),
{
    let mut new: Vec<u8> = Vec::new();
    push_range(&mut new, text, 0, text.len());
    assert(text@.subrange(0, text@.len() as int) =~= text@);
    assert(new@ =~= text@);
    assert(edits@.take(0) =~= Seq::<TextEdit>::empty());
    let mut i: usize = 0;
    while i < edits.len()
        invariant
            i <= edits.len(),
            new@ == spliced_all(text@, edits@.take(i as int)),
        decreases edits.len() - i,
    {
        let next = apply_change(&new, &edits[i]);
        proof {
            let done = edits@.take(i + 1);
            assert(done.drop_last() =~= edits@.take(i as int));
            assert(done.last() == edits@[i as int]);
        }
        new = next;
        i = i + 1;
    }
    assert(edits@.take(i as int) =~= edits@);
    let start = first_divergence(text, &new);
    (start, new)
}

/// The number of line feeds before the offset `idx`.
pub open spec fn count_lf(text: Seq<u8>, idx: int) -> int
    decreases idx,
{
    if idx <= 0 {
        0
    } else {
        count_lf(text, idx - 1) + if text[idx - 1] == LINE_FEED {
            1int
        } else {
            0int
        }
    }
}

/// The start of the line that the offset `idx` lies in.
pub open spec fn line_start(text: Seq<u8>, idx: int) -> int
    decreases idx,
{
    if idx <= 0 {
        0
    } else if text[idx - 1] == LINE_FEED {
        idx
    } else {
        line_start(text, idx - 1)
    }
}

/// The position of the offset `idx` in `text`: the number of the line that
/// it lies in, and its distance from the start of that line. `None` for an
/// offset behind the end of the text, and where a number does not fit.
pub open spec fn spec_to_pos(text: Seq<u8>, idx: int) -> Option<Position> {
    if 0 <= idx <= text.len() && count_lf(text, idx) <= u32::MAX && idx - line_start(text, idx)
        <= u32::MAX {
        Some(
            Position {
                line: count_lf(text, idx) as u32,
                character: (idx - line_start(text, idx)) as u32,
            },
        )
    } else {
        None
    }
}

/// Passing `n` line feeds and then `m` more is passing `n + m`.
proof fn lemma_skip_lines_add(text: Seq<u8>, a: int, n: nat, b: int, m: nat)
    requires
        0 <= a,
        skip_lines(text, a, n) == Some(b),
    ensures
        skip_lines(text, a, n + m) == skip_lines(text, b, m),
    decreases text.len() - a,
{
    if n == 0 {
    } else if a >= text.len() {
    } else if text[a] == LINE_FEED {
        lemma_skip_lines_add(text, a + 1, (n - 1) as nat, b, m);
    } else {
        lemma_skip_lines_add(text, a + 1, n, b, m);
    }
}

/// From an offset with no line feed up to `i`, where one stands, the next
/// line starts behind `i`.
proof fn lemma_skip_one_line(text: Seq<u8>, s: int, i: int)
    requires
        0 <= s <= i < text.len(),
        forall|j: int| s <= j < i ==> text[j] != LINE_FEED,
        text[i] == LINE_FEED,
    ensures
        skip_lines(text, s, 1) == Some(i + 1),
    decreases i - s,
{
    if s < i {
        lemma_skip_one_line(text, s + 1, i);
        assert(text[s] != LINE_FEED);
    } else {
        assert(skip_lines(text, i + 1, 0) == Some(i + 1));
    }
}

/// The line of an offset starts where that many line feeds have been
/// passed, and has no line feed up to the offset.
proof fn lemma_line_start(text: Seq<u8>, idx: int)
    requires
        0 <= idx <= text.len(),
    ensures
        0 <= line_start(text, idx) <= idx,
        0 <= count_lf(text, idx),
        skip_lines(text, 0, count_lf(text, idx) as nat) == Some(line_start(text, idx)),
        forall|j: int| line_start(text, idx) <= j < idx ==> text[j] != LINE_FEED,
    decreases idx,
{
    if idx > 0 {
        lemma_line_start(text, idx - 1);
        if text[idx - 1] == LINE_FEED {
            let s = line_start(text, idx - 1);
            let n = count_lf(text, idx - 1) as nat;
            lemma_skip_one_line(text, s, idx - 1);
            lemma_skip_lines_add(text, 0, n, s, 1);
        }
    }
}

/// The position of an offset leads back to the offset.
pub proof fn lemma_to_pos_to_idx(text: Seq<u8>, idx: int)
    requires
        spec_to_pos(text, idx) is Some,
    ensures
        spec_to_idx(text, spec_to_pos(text, idx).unwrap()) == Some(idx),
{
    lemma_line_start(text, idx);
}

/// The position of the offset `idx` in `text`.
pub fn to_pos(text: &Vec<u8>, idx: usize) -> (r: Option<Position>)
    ensures
        r == spec_to_pos(text@, idx as int),
{
    if idx > text.len() {
        return None;
    }
    let mut i: usize = 0;
    let mut line: usize = 0;
    let mut start: usize = 0;
    while i < idx
        invariant
            i <= idx <= text.len(),
            line == count_lf(text@, i as int),
            start == line_start(text@, i as int),
            line <= i,
            start <= i,
        decreases idx - i,
    {
        if text[i] == LINE_FEED {
            line = line + 1;
            start = i + 1;
        }
        i = i + 1;
    }
    if line <= u32::MAX as usize && idx - start <= u32::MAX as usize {
        Some(Position { line: line as u32, character: (idx - start) as u32 })
    } else {
        None
    }
}

/// The range of the span `sp` in `text`: the positions of its start and of
/// its end. `None` where one of them has none.
pub open spec fn spec_to_range(text: Seq<u8>, sp: Span) -> Option<Range> {
    match (spec_to_pos(text, sp.start as int), spec_to_pos(text, sp.end as int)) {
        (Some(start), Some(end)) => Some(Range { start, end }),
        _ => None,
    }
}

/// The range of the span `sp` in `text`.
pub fn to_range(text: &Vec<u8>, sp: Span) -> (r: Option<Range>)
    ensures
        r == spec_to_range(text@, sp),
{
    match (to_pos(text, sp.start), to_pos(text, sp.end)) {
        (Some(start), Some(end)) => Some(Range { start, end }),
        _ => None,
    }
}

} // verus!

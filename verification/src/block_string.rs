//! The value of a block string: its raw text without the indentation that
//! all of its lines share, and without blank lines at either end.

use vstd::prelude::*;

verus! {

/// White space within a line.
pub open spec fn is_blank_char(c: char) -> bool {
    c == ' ' || c == '\t'
}

/// A character that ends a line.
pub open spec fn is_break(c: char) -> bool {
    c == '\n' || c == '\r'
}

/// The end of the line that `pos` lies in: the next line terminator, or the
/// end of the text.
pub open spec fn line_end(s: Seq<char>, pos: int) -> int
    decreases s.len() - pos,
{
    if 0 <= pos < s.len() && !is_break(s[pos]) {
        line_end(s, pos + 1)
    } else {
        pos
    }
}

/// The length of the line terminator at `pos`: a carriage return and a line
/// feed together are one.
pub open spec fn break_width(s: Seq<char>, pos: int) -> int {
    if s[pos] == '\r' && pos + 1 < s.len() && s[pos + 1] == '\n' {
        2
    } else {
        1
    }
}

/// The lines of the text from `pos` on, without their terminators.
pub open spec fn lines_from(s: Seq<char>, pos: int) -> Seq<Seq<char>>
    decreases s.len() - pos,
{
    let end = line_end(s, pos);
    if pos < 0 || end < pos || end >= s.len() {
        seq![s.subrange(pos, end)]
    } else {
        seq![s.subrange(pos, end)] + lines_from(s, end + break_width(s, end))
    }
}

/// The number of blank characters that `line` begins with, counted from `from`.
pub open spec fn indent_from(line: Seq<char>, from: int) -> int
    decreases line.len() - from,
{
    if 0 <= from < line.len() && is_blank_char(line[from]) {
        indent_from(line, from + 1)
    } else {
        from
    }
}

/// The number of blank characters that `line` begins with.
pub open spec fn indent(line: Seq<char>) -> int {
    indent_from(line, 0)
}

/// A line of blank characters only.
pub open spec fn is_blank(line: Seq<char>) -> bool {
    indent(line) >= line.len()
}

/// The least indentation among the lines `1..n` that are not blank; `None`
/// where all of them are blank. The first line takes no part.
pub open spec fn common_indent(lines: Seq<Seq<char>>, n: int) -> Option<int>
    decreases n,
{
    if n <= 1 {
        None
    } else {
        let before = common_indent(lines, n - 1);
        let line = lines[n - 1];
        if is_blank(line) {
            before
        } else {
            match before {
                Some(least) if least <= indent(line) => before,
                _ => Some(indent(line)),
            }
        }
    }
}

/// `line` without its first `width` characters, or without all of them where
/// it has fewer.
pub open spec fn without_indent(line: Seq<char>, width: int) -> Seq<char> {
    if width <= 0 {
        line
    } else if width >= line.len() {
        Seq::empty()
    } else {
        line.skip(width)
    }
}

/// The lines with the common indentation taken off all but the first.
pub open spec fn dedent(lines: Seq<Seq<char>>) -> Seq<Seq<char>> {
    match common_indent(lines, lines.len() as int) {
        Some(width) => Seq::new(
            lines.len(),
            |k: int| if k == 0 { lines[k] } else { without_indent(lines[k], width) },
        ),
        None => lines,
    }
}

/// The number of blank lines that `lines` begins with, counted from `from`.
pub open spec fn first_content(lines: Seq<Seq<char>>, from: int) -> int
    decreases lines.len() - from,
{
    if 0 <= from < lines.len() && is_blank(lines[from]) {
        first_content(lines, from + 1)
    } else {
        from
    }
}

/// The end of the last line before `to` that is not blank, and no less than
/// `floor`.
pub open spec fn last_content(lines: Seq<Seq<char>>, floor: int, to: int) -> int
    decreases to,
{
    if 0 <= floor < to <= lines.len() && is_blank(lines[to - 1]) {
        last_content(lines, floor, to - 1)
    } else {
        to
    }
}

/// The lines `from..to`, with a line feed between each two.
pub open spec fn join(lines: Seq<Seq<char>>, from: int, to: int) -> Seq<char>
    decreases to - from,
{
    if to <= from {
        Seq::empty()
    } else if to == from + 1 {
        lines[from]
    } else {
        join(lines, from, to - 1) + seq!['\n'] + lines[to - 1]
    }
}

/// The value of the block string whose raw text is `raw`.
pub open spec fn block_string_value(raw: Seq<char>) -> Seq<char> {
    let lines = dedent(lines_from(raw, 0));
    let from = first_content(lines, 0);
    let to = last_content(lines, from, lines.len() as int);
    join(lines, from, to)
}

proof fn lemma_indent_from_bounds(line: Seq<char>, from: int)
    requires
        0 <= from <= line.len(),
    ensures
        from <= indent_from(line, from) <= line.len(),
    decreases line.len() - from,
{
    if from < line.len() && is_blank_char(line[from]) {
        lemma_indent_from_bounds(line, from + 1);
    }
}

proof fn lemma_indent_run(line: Seq<char>, from: int, to: int)
    requires
        0 <= from <= to <= indent_from(line, from),
        from <= line.len(),
    ensures
        indent_from(line, to) == indent_from(line, from),
    decreases to - from,
{
    lemma_indent_from_bounds(line, from);
    if from < to {
        lemma_indent_run(line, from + 1, to);
    }
}

proof fn lemma_indent_from_skip(line: Seq<char>, width: int, from: int)
    requires
        0 <= width <= line.len(),
        0 <= from <= line.len() - width,
    ensures
        indent_from(line.skip(width), from) == indent_from(line, from + width) - width,
    decreases line.len() - width - from,
{
    if from < line.len() - width && is_blank_char(line[from + width]) {
        lemma_indent_from_skip(line, width, from + 1);
    }
}

/// A line that loses no more than its indentation keeps the rest of it, and
/// a blank line stays blank.
proof fn lemma_without_indent(line: Seq<char>, width: int)
    requires
        0 <= width,
        !is_blank(line) ==> width <= indent(line),
    ensures
        is_blank(without_indent(line, width)) == is_blank(line),
        !is_blank(line) ==> indent(without_indent(line, width)) == indent(line) - width,
{
    lemma_indent_from_bounds(line, 0);
    if 0 < width < line.len() {
        lemma_indent_from_skip(line, width, 0);
        if width <= indent(line) {
            lemma_indent_run(line, 0, width);
        } else {
            lemma_indent_from_bounds(line.skip(width), 0);
        }
    }
}

proof fn lemma_common_indent_is_least(lines: Seq<Seq<char>>, n: int, k: int)
    requires
        1 <= k < n <= lines.len(),
        !is_blank(lines[k]),
    ensures
        common_indent(lines, n) matches Some(width) && 0 <= width <= indent(lines[k]),
    decreases n,
{
    lemma_indent_from_bounds(lines[n - 1], 0);
    if k < n - 1 {
        lemma_common_indent_is_least(lines, n - 1, k);
    } else if n > 2 && common_indent(lines, n - 1) is Some {
        lemma_common_indent_positive(lines, n - 1);
    }
}

proof fn lemma_common_indent_positive(lines: Seq<Seq<char>>, n: int)
    requires
        n <= lines.len(),
        common_indent(lines, n) is Some,
    ensures
        common_indent(lines, n)->0 >= 0,
    decreases n,
{
    if n > 1 {
        lemma_indent_from_bounds(lines[n - 1], 0);
        if common_indent(lines, n - 1) is Some {
            lemma_common_indent_positive(lines, n - 1);
        }
    }
}

/// The lines with `width` characters taken off all but the first.
pub open spec fn shifted(lines: Seq<Seq<char>>, width: int) -> Seq<Seq<char>> {
    Seq::new(lines.len(), |k: int| if k == 0 { lines[k] } else { without_indent(lines[k], width) })
}

proof fn lemma_common_indent_shifted(lines: Seq<Seq<char>>, width: int, n: int)
    requires
        0 <= width,
        0 <= n <= lines.len(),
        forall|k: int| 1 <= k < n && !is_blank(#[trigger] lines[k]) ==> width <= indent(lines[k]),
    ensures
        common_indent(shifted(lines, width), n) == match common_indent(lines, n) {
            Some(least) => Some(least - width),
            None => None,
        },
    decreases n,
{
    if n > 1 {
        lemma_common_indent_shifted(lines, width, n - 1);
        lemma_without_indent(lines[n - 1], width);
    }
}

/// Once the common indentation is taken off, none is left: of the lines
/// behind the first, one that is not blank begins with no blank character,
/// unless all of them are blank.
pub proof fn law_dedent_leaves_no_common_indent(lines: Seq<Seq<char>>)
    ensures
        common_indent(dedent(lines), lines.len() as int) matches Some(width) ==> width == 0,
        common_indent(dedent(lines), lines.len() as int) is Some == common_indent(
            lines,
            lines.len() as int,
        ) is Some,
{
    let n = lines.len() as int;
    if let Some(width) = common_indent(lines, n) {
        lemma_common_indent_positive(lines, n);
        assert forall|k: int| 1 <= k < n && !is_blank(#[trigger] lines[k]) implies width <= indent(
            lines[k],
        ) by {
            lemma_common_indent_is_least(lines, n, k);
        }
        lemma_common_indent_shifted(lines, width, n);
        assert(dedent(lines) == shifted(lines, width));
    }
}

/// The value of a block string neither begins nor ends with a blank line.
pub proof fn law_block_string_has_no_blank_ends(raw: Seq<char>)
    ensures
        ({
            let lines = dedent(lines_from(raw, 0));
            let from = first_content(lines, 0);
            let to = last_content(lines, from, lines.len() as int);
            &&& 0 <= from <= to <= lines.len()
            &&& from < to ==> !is_blank(lines[from]) && !is_blank(lines[to - 1])
            &&& from == to ==> block_string_value(raw) == Seq::<char>::empty()
        }),
{
    let lines = dedent(lines_from(raw, 0));
    lemma_first_content(lines, 0);
    let from = first_content(lines, 0);
    lemma_last_content(lines, from, lines.len() as int);
}

proof fn lemma_first_content(lines: Seq<Seq<char>>, from: int)
    requires
        0 <= from <= lines.len(),
    ensures
        from <= first_content(lines, from) <= lines.len(),
        first_content(lines, from) < lines.len() ==> !is_blank(lines[first_content(lines, from)]),
    decreases lines.len() - from,
{
    if from < lines.len() && is_blank(lines[from]) {
        lemma_first_content(lines, from + 1);
    }
}

proof fn lemma_last_content(lines: Seq<Seq<char>>, floor: int, to: int)
    requires
        0 <= floor <= to <= lines.len(),
        floor < lines.len() ==> !is_blank(lines[floor]),
    ensures
        floor <= last_content(lines, floor, to) <= to,
        floor < last_content(lines, floor, to) ==> !is_blank(
            lines[last_content(lines, floor, to) - 1],
        ),
        floor < to ==> floor < last_content(lines, floor, to),
    decreases to,
{
    if floor < to && is_blank(lines[to - 1]) {
        lemma_last_content(lines, floor, to - 1);
    }
}

/// The part of the text between the two positions of `bound`.
pub open spec fn span(s: Seq<char>, bound: (usize, usize)) -> Seq<char> {
    s.subrange(bound.0 as int, bound.1 as int)
}

/// Whether each of `bounds` marks a part of the text.
pub open spec fn valid_bounds(s: Seq<char>, bounds: Seq<(usize, usize)>) -> bool {
    forall|k: int| 0 <= k < bounds.len() ==> (#[trigger] bounds[k]).0 <= bounds[k].1 <= s.len()
}

/// The parts of the text that `bounds` marks, in order.
pub open spec fn spans(s: Seq<char>, bounds: Seq<(usize, usize)>) -> Seq<Seq<char>> {
    Seq::new(bounds.len(), |k: int| span(s, bounds[k]))
}

fn is_blank_at(raw: &Vec<char>, pos: usize) -> (blank: bool)
    requires
        pos < raw.len(),
    ensures
        blank == is_blank_char(raw@[pos as int]),
{
    raw[pos] == ' ' || raw[pos] == '\t'
}

fn is_break_at(raw: &Vec<char>, pos: usize) -> (found: bool)
    requires
        pos < raw.len(),
    ensures
        found == is_break(raw@[pos as int]),
{
    raw[pos] == '\n' || raw[pos] == '\r'
}

fn find_line_end(raw: &Vec<char>, pos: usize) -> (end: usize)
    requires
        pos <= raw.len(),
    ensures
        pos <= end <= raw.len(),
        end == line_end(raw@, pos as int),
{
    let mut end = pos;
    while end < raw.len() && !is_break_at(raw, end)
        invariant
            pos <= end <= raw.len(),
            line_end(raw@, pos as int) == line_end(raw@, end as int),
        decreases raw.len() - end,
    {
        end = end + 1;
    }
    end
}

fn line_bounds(raw: &Vec<char>) -> (bounds: Vec<(usize, usize)>)
    ensures
        bounds.len() >= 1,
        valid_bounds(raw@, bounds@),
        spans(raw@, bounds@) == lines_from(raw@, 0),
{
    let mut bounds: Vec<(usize, usize)> = Vec::new();
    let mut pos: usize = 0;
    loop
        invariant_except_break
            pos <= raw.len(),
            valid_bounds(raw@, bounds@),
            lines_from(raw@, 0) == spans(raw@, bounds@) + lines_from(raw@, pos as int),
        ensures
            bounds.len() >= 1,
            valid_bounds(raw@, bounds@),
            spans(raw@, bounds@) == lines_from(raw@, 0),
        decreases raw.len() - pos,
    {
        let end = find_line_end(raw, pos);
        let ghost before = bounds@;
        bounds.push((pos, end));
        assert(spans(raw@, bounds@) == spans(raw@, before) + seq![span(raw@, (pos, end))]);
        if end >= raw.len() {
            break ;
        }
        let width: usize = if raw[end] == '\r' && end + 1 < raw.len() && raw[end + 1] == '\n' {
            2
        } else {
            1
        };
        assert(lines_from(raw@, pos as int) == seq![span(raw@, (pos, end))] + lines_from(
            raw@,
            end + width,
        ));
        pos = end + width;
    }
    bounds
}

fn indent_of(raw: &Vec<char>, start: usize, end: usize) -> (width: usize)
    requires
        start <= end <= raw.len(),
    ensures
        width == indent(raw@.subrange(start as int, end as int)),
        width <= end - start,
{
    let ghost line = raw@.subrange(start as int, end as int);
    let mut pos = start;
    while pos < end && is_blank_at(raw, pos)
        invariant
            start <= pos <= end <= raw.len(),
            line == raw@.subrange(start as int, end as int),
            indent(line) == indent_from(line, pos - start),
        decreases end - pos,
    {
        assert(line[pos - start] == raw@[pos as int]);
        pos = pos + 1;
    }
    proof {
        if pos < end {
            assert(line[pos - start] == raw@[pos as int]);
        }
    }
    pos - start
}

fn least_indent(raw: &Vec<char>, bounds: &Vec<(usize, usize)>) -> (least: Option<usize>)
    requires
        bounds.len() >= 1,
        valid_bounds(raw@, bounds@),
    ensures
        match least {
            Some(width) => common_indent(spans(raw@, bounds@), bounds.len() as int) == Some(
                width as int,
            ),
            None => common_indent(spans(raw@, bounds@), bounds.len() as int) is None,
        },
{
    let ghost lines = spans(raw@, bounds@);
    let mut least: Option<usize> = None;
    let mut k: usize = 1;
    while k < bounds.len()
        invariant
            1 <= k <= bounds.len(),
            valid_bounds(raw@, bounds@),
            lines == spans(raw@, bounds@),
            match least {
                Some(width) => common_indent(lines, k as int) == Some(width as int),
                None => common_indent(lines, k as int) is None,
            },
        decreases bounds.len() - k,
    {
        let (start, end) = bounds[k];
        let width = indent_of(raw, start, end);
        assert(lines[k as int] == raw@.subrange(start as int, end as int));
        if width < end - start {
            match least {
                Some(found) if found <= width => {},
                _ => {
                    least = Some(width);
                },
            }
        }
        k = k + 1;
    }
    least
}

fn dedent_bounds(raw: &Vec<char>, bounds: &Vec<(usize, usize)>) -> (out: Vec<(usize, usize)>)
    requires
        bounds.len() >= 1,
        valid_bounds(raw@, bounds@),
    ensures
        out.len() == bounds.len(),
        valid_bounds(raw@, out@),
        spans(raw@, out@) == dedent(spans(raw@, bounds@)),
{
    let ghost lines = spans(raw@, bounds@);
    let least = least_indent(raw, bounds);
    let mut out: Vec<(usize, usize)> = Vec::new();
    let mut k: usize = 0;
    while k < bounds.len()
        invariant
            k <= bounds.len(),
            out.len() == k,
            valid_bounds(raw@, bounds@),
            valid_bounds(raw@, out@),
            lines == spans(raw@, bounds@),
            match least {
                Some(width) => common_indent(lines, bounds.len() as int) == Some(width as int),
                None => common_indent(lines, bounds.len() as int) is None,
            },
            forall|j: int| 0 <= j < k ==> span(raw@, #[trigger] out@[j]) == dedent(lines)[j],
        decreases bounds.len() - k,
    {
        let (start, end) = bounds[k];
        let from = match least {
            Some(width) if k > 0 => if width >= end - start {
                end
            } else {
                start + width
            },
            _ => start,
        };
        proof {
            let line = lines[k as int];
            assert(line == raw@.subrange(start as int, end as int));
            assert(raw@.subrange(from as int, end as int) == dedent(lines)[k as int]);
        }
        out.push((from, end));
        k = k + 1;
    }
    assert(spans(raw@, out@) == dedent(lines));
    out
}

fn is_blank_span(raw: &Vec<char>, bound: (usize, usize)) -> (blank: bool)
    requires
        bound.0 <= bound.1 <= raw.len(),
    ensures
        blank == is_blank(span(raw@, bound)),
{
    indent_of(raw, bound.0, bound.1) >= bound.1 - bound.0
}

/// The value of the block string whose raw text is `raw`.
pub fn block_value(raw: &Vec<char>) -> (value: Vec<char>)
    ensures
        value@ == block_string_value(raw@),
{
    let whole = line_bounds(raw);
    let bounds = dedent_bounds(raw, &whole);
    let ghost lines = spans(raw@, bounds@);
    let mut from: usize = 0;
    while from < bounds.len() && is_blank_span(raw, bounds[from])
        invariant
            from <= bounds.len(),
            valid_bounds(raw@, bounds@),
            lines == spans(raw@, bounds@),
            first_content(lines, 0) == first_content(lines, from as int),
        decreases bounds.len() - from,
    {
        from = from + 1;
    }
    let mut to: usize = bounds.len();
    while from < to && is_blank_span(raw, bounds[to - 1])
        invariant
            from <= to <= bounds.len(),
            valid_bounds(raw@, bounds@),
            lines == spans(raw@, bounds@),
            last_content(lines, from as int, bounds.len() as int) == last_content(
                lines,
                from as int,
                to as int,
            ),
        decreases to,
    {
        to = to - 1;
    }
    let mut value: Vec<char> = Vec::new();
    let mut k: usize = from;
    while k < to
        invariant
            from <= k <= to <= bounds.len(),
            valid_bounds(raw@, bounds@),
            lines == spans(raw@, bounds@),
            value@ == join(lines, from as int, k as int),
        decreases to - k,
    {
        if k > from {
            value.push('\n');
        }
        let (start, end) = bounds[k];
        let ghost head = value@;
        let mut pos: usize = start;
        while pos < end
            invariant
                start <= pos <= end <= raw.len(),
                value@ == head + raw@.subrange(start as int, pos as int),
            decreases end - pos,
        {
            value.push(raw[pos]);
            pos = pos + 1;
        }
        proof {
            assert(lines[k as int] == raw@.subrange(start as int, end as int));
            assert(join(lines, from as int, k + 1) == head + lines[k as int]);
        }
        k = k + 1;
    }
    value
}

} // verus!

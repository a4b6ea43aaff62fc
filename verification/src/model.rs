//! The mathematical model of the editing engine.
//!
//! Every executable operation on [`crate::editor::Editor`] states its effect
//! as a function over [`State`]: the document's lines as a sequence of
//! character sequences, and the cursor as a pair of unbounded integers.

use vstd::prelude::*;

verus! {

/// The model of an engine: the document's lines and the cursor coordinates.
/// The cursor may lie outside the document; validation repairs it lazily.
#[verifier::ext_equal]
pub struct State {
    pub lines: Seq<Seq<char>>,
    pub line: int,
    pub column: int,
}

/// `v` forced into `[lo, hi]`, computed as `v.min(hi).max(lo)`.
pub open spec fn clamp(v: int, lo: int, hi: int) -> int {
    let m = if v < hi {
        v
    } else {
        hi
    };
    if m > lo {
        m
    } else {
        lo
    }
}

/// The largest admissible line index: the last line's, or `0` for a document
/// with no lines at all.
pub open spec fn max_line(lines: Seq<Seq<char>>) -> int {
    if lines.len() == 0 {
        0
    } else {
        lines.len() - 1
    }
}

/// The length of line `l`, or `0` where no such line exists.
pub open spec fn line_len(lines: Seq<Seq<char>>, l: int) -> int {
    if 0 <= l < lines.len() {
        lines[l].len() as int
    } else {
        0
    }
}

/// The cursor's line after validation.
pub open spec fn valid_line(lines: Seq<Seq<char>>, l: int) -> int {
    clamp(l, 0, max_line(lines))
}

/// The cursor's column after validation, against the already validated line
/// `vl`. The column may equal the line's length: an insertion point past the
/// last character.
pub open spec fn valid_column(lines: Seq<Seq<char>>, vl: int, c: int) -> int {
    clamp(c, 0, line_len(lines, vl))
}

/// Cursor validation: the line clamped into the document, then the column
/// clamped into the clamped line. The document itself never changes.
pub open spec fn validated(s: State) -> State {
    let vl = valid_line(s.lines, s.line);
    State { lines: s.lines, line: vl, column: valid_column(s.lines, vl, s.column) }
}

/// A count the engine can still hand out as an `isize` coordinate.
pub open spec fn fits(n: int) -> bool {
    n <= isize::MAX as int
}

/// Well-formedness: the line count and every line length fit in an `isize`,
/// so the signed accessors cannot overflow. Construction establishes this and
/// every operation preserves it.
pub open spec fn state_wf(s: State) -> bool {
    &&& fits(s.lines.len() as int)
    &&& forall|i: int| 0 <= i < s.lines.len() ==> fits((#[trigger] s.lines[i]).len() as int)
}

/// `Insert(text)`: the text's characters enter the validated current line at
/// the validated column, in order; the cursor does not advance. With no
/// current line, or a line that could no longer be addressed by an `isize`
/// coordinate, nothing changes.
pub open spec fn insert_spec(s: State, ins: Seq<char>) -> State {
    let v = validated(s);
    if v.lines.len() == 0 {
        v
    } else if !fits(v.lines[v.line].len() as int + ins.len() as int) {
        v
    } else {
        let l = v.lines[v.line];
        State {
            lines: v.lines.update(
                v.line,
                l.subrange(0, v.column) + ins + l.subrange(v.column, l.len() as int),
            ),
            line: v.line,
            column: v.column,
        }
    }
}

/// `AppendLineTo(target)`: the validated current line's content, cloned and
/// extended onto the end of line `target`; the source line stays as it is.
/// A `target` that addresses no line, a document with no current line, or a
/// target that could no longer be addressed by an `isize` coordinate leave
/// everything unchanged.
pub open spec fn append_spec(s: State, target: int) -> State {
    let v = validated(s);
    if v.lines.len() == 0 {
        v
    } else if !(0 <= target < v.lines.len()) {
        v
    } else if !fits(v.lines[target].len() as int + v.lines[v.line].len() as int) {
        v
    } else {
        State {
            lines: v.lines.update(target, v.lines[target] + v.lines[v.line]),
            line: v.line,
            column: v.column,
        }
    }
}

/// `DeleteLine`: the validated current line leaves the document; the cursor
/// stays where it was, to be repaired lazily. A document with no lines is
/// left as it is.
pub open spec fn delete_line_spec(s: State) -> State {
    let v = validated(s);
    if v.lines.len() == 0 {
        v
    } else {
        State { lines: v.lines.remove(v.line), line: v.line, column: v.column }
    }
}

/// `Backspace`: at column `0` of a line other than the first, the current
/// line merges into the line above (append, then delete), and the cursor
/// lands on that line at the previous line's length plus one — the deliberate
/// one-off for the caller's follow-up move left. At column `0` of line `0`
/// nothing happens. Elsewhere the character before the column leaves the
/// line. Merges that would outgrow an `isize` coordinate leave everything
/// unchanged.
pub open spec fn backspace_spec(s: State) -> State {
    let v = validated(s);
    if v.column == 0 && v.line != 0 {
        let above = v.lines[v.line - 1];
        let cur = v.lines[v.line];
        if fits(above.len() as int + cur.len() as int) && fits(above.len() as int + 1) {
            State {
                lines: v.lines.update(v.line - 1, above + cur).remove(v.line),
                line: v.line - 1,
                column: above.len() as int + 1,
            }
        } else {
            v
        }
    } else if v.column != 0 {
        let l = v.lines[v.line];
        State {
            lines: v.lines.update(v.line, l.remove(v.column - 1)),
            line: v.line,
            column: v.column,
        }
    } else {
        v
    }
}

/// `BreakLine`: the validated current line splits at the validated column;
/// the right part replaces it in place and the left part enters as a new
/// line just before it. The cursor stays put. A document with no lines, or
/// one whose line count could no longer be addressed, is left as it is.
pub open spec fn break_line_spec(s: State) -> State {
    let v = validated(s);
    if v.lines.len() == 0 {
        v
    } else if !fits(v.lines.len() as int + 1) {
        v
    } else {
        let l = v.lines[v.line];
        State {
            lines: v.lines.update(v.line, l.subrange(v.column, l.len() as int)).insert(
                v.line,
                l.subrange(0, v.column),
            ),
            line: v.line,
            column: v.column,
        }
    }
}

/// Addition held to the `isize` range: the cursor saturates at the ends
/// rather than wrap, so a later validation still clamps it to the nearest
/// valid position.
pub open spec fn sat_add_spec(a: int, b: int) -> int {
    clamp(a + b, isize::MIN as int, isize::MAX as int)
}

/// `Offset(d)`: the displacement added componentwise; no clamping to the
/// document.
pub open spec fn offset_spec(s: State, dl: int, dc: int) -> State {
    State { lines: s.lines, line: sat_add_spec(s.line, dl), column: sat_add_spec(s.column, dc) }
}

/// `Goto(c)`: the cursor set unconditionally; no clamping.
pub open spec fn goto_spec(s: State, line: int, column: int) -> State {
    State { lines: s.lines, line: line, column: column }
}

/// `LineStart`: the column set to `0`.
pub open spec fn line_start_spec(s: State) -> State {
    State { lines: s.lines, line: s.line, column: 0 }
}

/// `LineEnd`: the cursor validated, then the column set past the validated
/// current line's last character; only a document with no line at all
/// leaves the (validated) column as it is.
pub open spec fn line_end_spec(s: State) -> State {
    let v = validated(s);
    if v.lines.len() == 0 {
        v
    } else {
        State { lines: v.lines, line: v.line, column: v.lines[v.line].len() as int }
    }
}

/// The text split at each line feed. The line feeds themselves are dropped,
/// the carriage returns of CRLF input stay embedded, and a trailing line
/// feed still opens one further, empty line — so even the empty text yields
/// one empty line.
pub open spec fn split_lines(s: Seq<char>) -> Seq<Seq<char>>
    decreases s.len(),
{
    if s.len() == 0 {
        seq![Seq::<char>::empty()]
    } else {
        let rest = split_lines(s.drop_last());
        if s.last() == '\n' {
            rest.push(Seq::<char>::empty())
        } else {
            rest.update(rest.len() - 1, rest.last().push(s.last()))
        }
    }
}

/// The document joined back to text with a carriage-return/line-feed pair
/// between the lines — deliberately asymmetric with [`split_lines`], which
/// splits on the line feed alone.
pub open spec fn join_crlf(lines: Seq<Seq<char>>) -> Seq<char>
    decreases lines.len(),
{
    if lines.len() == 0 {
        Seq::<char>::empty()
    } else if lines.len() == 1 {
        lines[0]
    } else {
        join_crlf(lines.drop_last()) + seq!['\r', '\n'] + lines.last()
    }
}

/// What serialization returns: the joined text, or the fixed fallback for a
/// document whose every line has been deleted.
pub open spec fn render_spec(lines: Seq<Seq<char>>) -> Seq<char> {
    if lines.len() == 0 {
        "Could not reduce text !"@
    } else {
        join_crlf(lines)
    }
}

/// The display form of line `l` at column width `width`. An index that
/// addresses no line shows as the single-character placeholder `"~"`,
/// whatever the width. A line shorter than the width shows whole; any other
/// line shows only its trailing `length % width` characters, after a `'<'`
/// truncation marker.
pub open spec fn display_spec(lines: Seq<Seq<char>>, l: int, width: int) -> Seq<char> {
    if !(0 <= l < lines.len()) {
        seq!['~']
    } else {
        let content = lines[l];
        if content.len() < width {
            content
        } else {
            seq!['<'] + content.skip(content.len() - (content.len() as int % width))
        }
    }
}

} // verus!

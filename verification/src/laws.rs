//! The engine's general laws, each proved against the model in
//! [`crate::model`].

use vstd::prelude::*;

use crate::model::backspace_spec;
use crate::model::break_line_spec;
use crate::model::display_spec;
use crate::model::line_len;
use crate::model::max_line;
use crate::model::validated;
use crate::model::State;

verus! {

/// For every cursor and document, the validated cursor lies inside the
/// document's bounds: the line in `[0, max(lineCount - 1, 0)]` and the
/// column in `[0, currentLineLength]`.
pub proof fn lemma_validated_in_bounds(s: State)
    ensures
        0 <= validated(s).line <= max_line(s.lines),
        0 <= validated(s).column <= line_len(s.lines, validated(s).line),
{
}

/// Validating twice in succession yields the same cursor as validating
/// once.
pub proof fn lemma_validate_idempotent(s: State)
    ensures
        validated(validated(s)) == validated(s),
{
    assert(validated(validated(s)) =~~= validated(s));
}

/// Breaking a line conserves its content: the left and the right part that
/// the split leaves behind, concatenated in order without a separator,
/// reproduce the line the cursor stood on exactly. The one excluded input
/// is a document already holding `isize::MAX` lines, where the split is a
/// guarded no-op and leaves no parts behind.
pub proof fn lemma_break_line_conserves(s: State)
    requires
        s.lines.len() > 0,
        s.lines.len() + 1 <= isize::MAX as int,
    ensures
        ({
            let v = validated(s);
            let t = break_line_spec(s).lines;
            t[v.line] + t[v.line + 1] == s.lines[v.line]
        }),
{
    let v = validated(s);
    let l = s.lines[v.line];
    assert(l.subrange(0, v.column) + l.subrange(v.column, l.len() as int) =~= l);
}

/// A line index that addresses no line displays as the single-character
/// placeholder `"~"`, regardless of the width.
pub proof fn lemma_display_placeholder(lines: Seq<Seq<char>>, l: int, width: int)
    requires
        l < 0 || l >= lines.len(),
    ensures
        display_spec(lines, l, width) == seq!['~'],
{
}

/// Backspace at line `0`, column `0` is a no-op: document and cursor both
/// stay exactly as they were.
pub proof fn lemma_backspace_at_origin(s: State)
    requires
        s.line == 0,
        s.column == 0,
    ensures
        backspace_spec(s) == s,
{
    assert(backspace_spec(s) =~~= s);
}

} // verus!


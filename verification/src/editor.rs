//! The editing engine: a document of lines, one cursor, and a closed set of
//! commands applied sequentially. Each operation's contract states its exact
//! effect over the model in [`crate::model`].

use vstd::prelude::*;

use crate::model::append_spec;
use crate::model::backspace_spec;
use crate::model::break_line_spec;
use crate::model::clamp;
use crate::model::delete_line_spec;
use crate::model::display_spec;
use crate::model::goto_spec;
use crate::model::insert_spec;
use crate::model::join_crlf;
use crate::model::line_end_spec;
use crate::model::line_start_spec;
use crate::model::offset_spec;
use crate::model::render_spec;
use crate::model::sat_add_spec;
use crate::model::split_lines;
use crate::model::state_wf;
use crate::model::validated;
use crate::model::State;
use vstd::string::StrSliceExecFns;
use vstd::utf8::encode_utf8;

verus! {

/// A pair of signed coordinates. As the engine's cursor it is an absolute
/// position that may transiently lie outside the document; validation
/// repairs it lazily.
#[derive(Debug, Copy, Clone, PartialEq, Eq, Structural)]
pub struct Cursor {
    pub column: isize,
    pub line: isize,
}

/// A `Cursor` read as a relative move rather than an absolute position.
pub type Displacement = Cursor;

/// The closed set of operations the engine applies.
#[derive(Debug, Clone)]
pub enum Command {
    /// Insert the text's characters into the current line at the cursor.
    Insert(String),
    /// Reserved: deleting under the cursor has no semantics yet.
    Delete,
    /// Remove the character before the cursor, or merge with the line above.
    Backspace,
    /// Extend the addressed line with a copy of the current line.
    AppendLineTo(isize),
    /// Remove the current line.
    DeleteLine,
    /// Split the current line at the cursor's column.
    BreakLine,
    /// Set the cursor unconditionally.
    Goto(Cursor),
    /// Move the cursor by a displacement, without clamping.
    Offset(Displacement),
    /// Set the column to the line's start.
    LineStart,
    /// Set the column past the line's last character.
    LineEnd,
    /// Reserved: history has no semantics yet.
    Undo,
    /// Reserved: history has no semantics yet.
    Redo,
}

/// What applying one command reports. No command aborts the session: one
/// without semantics reports [`Outcome::Unsupported`], one addressing a
/// nonexistent line reports [`Outcome::InvalidTarget`], and both leave the
/// engine unchanged.
#[derive(Debug, Copy, Clone, PartialEq, Eq, Structural)]
pub enum Outcome {
    /// The command was applied, possibly as a silent no-op by design.
    Done,
    /// The command has no semantics (`Delete`, `Undo`, `Redo`).
    Unsupported,
    /// The command addressed a line that does not exist.
    InvalidTarget,
}

/// The engine: sole owner of one document and one cursor.
pub struct Editor {
    cursor: Cursor,
    text: Vec<Vec<char>>,
}

impl View for Editor {
    type V = State;

    closed spec fn view(&self) -> State {
        State {
            lines: self.text.deep_view(),
            line: self.cursor.line as int,
            column: self.cursor.column as int,
        }
    }
}

/// The effect of one command on the model.
pub open spec fn step_spec(s: State, cmd: Command) -> State {
    match cmd {
        Command::Insert(c) => insert_spec(s, c@),
        Command::Delete => s,
        Command::Backspace => backspace_spec(s),
        Command::AppendLineTo(l) => append_spec(s, l as int),
        Command::DeleteLine => delete_line_spec(s),
        Command::BreakLine => break_line_spec(s),
        Command::Goto(c) => goto_spec(s, c.line as int, c.column as int),
        Command::Offset(d) => offset_spec(s, d.line as int, d.column as int),
        Command::LineStart => line_start_spec(s),
        Command::LineEnd => line_end_spec(s),
        Command::Undo => s,
        Command::Redo => s,
    }
}

/// What applying one command reports.
pub open spec fn outcome_spec(s: State, cmd: Command) -> Outcome {
    match cmd {
        Command::Delete => Outcome::Unsupported,
        Command::Undo => Outcome::Unsupported,
        Command::Redo => Outcome::Unsupported,
        Command::AppendLineTo(l) => if 0 <= (l as int) < s.lines.len() {
            Outcome::Done
        } else {
            Outcome::InvalidTarget
        },
        _ => Outcome::Done,
    }
}

/// The effect of a whole program of commands, applied in order.
pub open spec fn run_spec(s: State, cmds: Seq<Command>) -> State
    decreases cmds.len(),
{
    if cmds.len() == 0 {
        s
    } else {
        run_spec(step_spec(s, cmds[0]), cmds.drop_first())
    }
}

/// Applying one more command at the end of a program steps its result once.
proof fn lemma_run_snoc(s: State, cmds: Seq<Command>, c: Command)
    ensures
        run_spec(s, cmds.push(c)) == step_spec(run_spec(s, cmds), c),
    decreases cmds.len(),
{
    if cmds.len() == 0 {
        assert(cmds.push(c)[0] == c);
        assert(cmds.push(c).drop_first() =~= Seq::<Command>::empty());
        assert(run_spec(s, cmds.push(c)) == run_spec(step_spec(s, c), Seq::<Command>::empty()));
    } else {
        assert(cmds.push(c)[0] == cmds[0]);
        assert(cmds.push(c).drop_first() =~= cmds.drop_first().push(c));
        lemma_run_snoc(step_spec(s, cmds[0]), cmds.drop_first(), c);
    }
}

/// Relies on `String::push`: appends the character to the end of the string.
#[verifier::external_body]
fn push_char(s: &mut String, c: char)
    ensures
        final(s)@ == old(s)@.push(c),
{
    s.push(c);
}

/// The byte length of the string's UTF-8 encoding.
fn byte_length(s: &String) -> (r: usize)
    ensures
        r == encode_utf8(s@).len() as usize,
{
    s.as_str().len()
}

/// The characters of `s`, in order.
fn str_chars(s: &str) -> (r: Vec<char>)
    ensures
        r@ == s@,
{
    let n = s.unicode_len();
    let mut r: Vec<char> = Vec::new();
    let mut i: usize = 0;
    while i < n
        invariant
            i <= n,
            n == s@.len(),
            r@ == s@.take(i as int),
        decreases n - i,
    {
        r.push(s.get_char(i));
        proof {
            assert(s@.take(i + 1 as int) =~= s@.take(i as int).push(s@[i as int]));
        }
        i = i + 1;
    }
    proof {
        assert(s@.take(n as int) =~= s@);
    }
    r
}

/// A copy of a line's characters.
fn copy_line(v: &Vec<char>) -> (r: Vec<char>)
    ensures
        r@ == v@,
{
    let mut r: Vec<char> = Vec::new();
    let mut i: usize = 0;
    while i < v.len()
        invariant
            i <= v@.len(),
            r@ == v@.take(i as int),
        decreases v@.len() - i,
    {
        r.push(v[i]);
        proof {
            assert(v@.take(i + 1 as int) =~= v@.take(i as int).push(v@[i as int]));
        }
        i = i + 1;
    }
    proof {
        assert(v@.take(v@.len() as int) =~= v@);
    }
    r
}

/// The line's characters as a freshly built string.
fn chars_string(v: &Vec<char>) -> (r: String)
    ensures
        r@ == v@,
{
    let mut r = String::new();
    let mut i: usize = 0;
    while i < v.len()
        invariant
            i <= v@.len(),
            r@ == v@.take(i as int),
        decreases v@.len() - i,
    {
        push_char(&mut r, v[i]);
        proof {
            assert(v@.take(i + 1 as int) =~= v@.take(i as int).push(v@[i as int]));
        }
        i = i + 1;
    }
    proof {
        assert(v@.take(v@.len() as int) =~= v@);
    }
    r
}

/// Appends the line's characters to the string.
fn push_line(r: &mut String, v: &Vec<char>)
    ensures
        final(r)@ == old(r)@ + v@,
{
    let mut i: usize = 0;
    while i < v.len()
        invariant
            i <= v@.len(),
            r@ == old(r)@ + v@.take(i as int),
        decreases v@.len() - i,
    {
        push_char(r, v[i]);
        proof {
            assert(v@.take(i + 1 as int) =~= v@.take(i as int).push(v@[i as int]));
        }
        i = i + 1;
    }
    proof {
        assert(v@.take(v@.len() as int) =~= v@);
    }
}

impl Editor {
    /// Every `isize` accessor of this engine stays in range.
    pub open spec fn wf(self) -> bool {
        state_wf(self@)
    }

    /// An engine built from an initial text: the text split at each line
    /// feed (carriage returns stay embedded), the cursor at the origin.
    /// Even the empty text yields one empty line.
    pub fn from_text(s: &str) -> (e: Editor)
        requires
            s@.len() < isize::MAX as int,
        ensures
            e@.lines == split_lines(s@),
            e@.line == 0,
            e@.column == 0,
            e.wf(),
    {
        let cs = str_chars(s);
        let mut text: Vec<Vec<char>> = Vec::new();
        let mut cur: Vec<char> = Vec::new();
        let mut i: usize = 0;
        while i < cs.len()
            invariant
                i <= cs@.len(),
                cs@ == s@,
                s@.len() < isize::MAX as int,
                split_lines(cs@.take(i as int)) == text.deep_view().push(cur@),
                text@.len() <= i,
                cur@.len() <= i,
                forall|k: int|
                    0 <= k < text@.len() ==> (#[trigger] text.deep_view()[k]).len() <= i,
            decreases cs@.len() - i,
        {
            proof {
                assert(cs@.take(i + 1 as int) =~= cs@.take(i as int).push(cs@[i as int]));
                assert(cs@.take(i + 1 as int).drop_last() =~= cs@.take(i as int));
            }
            let ghost prev = text.deep_view().push(cur@);
            if cs[i] == '\n' {
                text.push(cur);
                cur = Vec::new();
                proof {
                    assert(text.deep_view() =~~= prev);
                    assert(split_lines(cs@.take(i + 1 as int)) =~~= text.deep_view().push(cur@));
                }
            } else {
                cur.push(cs[i]);
                proof {
                    assert(prev.len() >= 1);
                    assert(split_lines(cs@.take(i + 1 as int)) =~~= prev.update(
                        prev.len() - 1,
                        prev.last().push(cs@[i as int]),
                    ));
                    assert(prev.update(prev.len() - 1, prev.last().push(cs@[i as int]))
                        =~~= text.deep_view().push(cur@));
                }
            }
            i = i + 1;
        }
        proof {
            assert(cs@.take(cs@.len() as int) =~= cs@);
        }
        let ghost prev = text.deep_view().push(cur@);
        text.push(cur);
        proof {
            assert(text.deep_view() =~~= prev);
        }
        let e = Editor { cursor: Cursor { column: 0, line: 0 }, text };
        proof {
            assert(e@.lines == split_lines(s@));
        }
        e
    }

    /// The display form of line `line` at column width `width`, as
    /// [`display_spec`] states: the placeholder `"~"` for an index that
    /// addresses no line, the whole line when it is shorter than the width,
    /// and otherwise a `'<'` marker followed by the trailing
    /// `length % width` characters.
    pub fn get_line_display(&self, line: isize, width: usize) -> (r: String)
        requires
            self.wf(),
            width >= 1,
        ensures
            r@ == display_spec(self@.lines, line as int, width as int),
    {
        if !(line > -1 && line < self.get_line_count()) {
            let mut t = String::new();
            push_char(&mut t, '~');
            proof {
                assert(t@ =~= seq!['~']);
            }
            return t;
        }
        let content: Vec<char> = copy_line(&self.text[line as usize]);
        proof {
            assert(content@ =~= self@.lines[line as int]);
        }
        if content.len() < width {
            chars_string(&content)
        } else {
            let remainder = content.len() % width;
            let start = content.len() - remainder;
            let mut r = String::new();
            push_char(&mut r, '<');
            let mut i: usize = start;
            while i < content.len()
                invariant
                    start <= i <= content@.len(),
                    start == content@.len() - (content@.len() as int % width as int),
                    r@ == seq!['<'] + content@.subrange(start as int, i as int),
                decreases content@.len() - i,
            {
                push_char(&mut r, content[i]);
                proof {
                    assert(content@.subrange(start as int, i + 1 as int) =~= content@.subrange(
                        start as int,
                        i as int,
                    ).push(content@[i as int]));
                }
                i = i + 1;
            }
            proof {
                assert(content@.subrange(start as int, content@.len() as int) =~= content@.skip(
                    start as int,
                ));
            }
            r
        }
    }

    /// The cursor exactly as it stands, possibly not yet validated.
    pub fn get_cursor(&self) -> (r: Cursor)
        ensures
            r.line as int == self@.line,
            r.column as int == self@.column,
    {
        self.cursor
    }

    /// Validates the cursor and returns it as non-negative coordinates,
    /// column first, fit for positioning a terminal caret.
    pub fn get_unsigned_cursor(&mut self) -> (r: (usize, usize))
        requires
            old(self).wf(),
        ensures
            final(self)@ == validated(old(self)@),
            final(self).wf(),
            r.0 as int == validated(old(self)@).column,
            r.1 as int == validated(old(self)@).line,
    {
        self.validate_cursor();
        (self.cursor.column as usize, self.cursor.line as usize)
    }

    /// How many lines the document holds.
    pub fn get_line_count(&self) -> (r: isize)
        requires
            self.wf(),
        ensures
            r as int == self@.lines.len(),
    {
        self.text.len() as isize
    }

    /// The length of the line the raw cursor addresses, a negative line
    /// index reading as line `0`; `None` where no such line exists.
    pub fn get_line_length(&self) -> (r: Option<isize>)
        requires
            self.wf(),
        ensures
            ({
                let idx = if self@.line < 0 {
                    0
                } else {
                    self@.line
                };
                match r {
                    Some(n) => idx < self@.lines.len() && n as int == self@.lines[idx].len(),
                    None => idx >= self@.lines.len(),
                }
            }),
    {
        let idx: usize = if self.cursor.line < 0 {
            0
        } else {
            self.cursor.line as usize
        };
        if idx < self.text.len() {
            Some(self.text[idx].len() as isize)
        } else {
            None
        }
    }

    /// The line at `line`, or `None` where no such line exists.
    fn get_line(&self, line: isize) -> (r: Option<&Vec<char>>)
        ensures
            match r {
                Some(l) => 0 <= (line as int) < self@.lines.len() && l@ == self@.lines[line as int],
                None => !(0 <= (line as int) < self@.lines.len()),
            },
    {
        if line >= 0 && (line as usize) < self.text.len() {
            Some(&self.text[line as usize])
        } else {
            None
        }
    }

    /// The line the raw cursor addresses, or `None` where no such line
    /// exists.
    fn get_current_line(&self) -> (r: Option<&Vec<char>>)
        ensures
            match r {
                Some(l) => 0 <= self@.line && self@.line < self@.lines.len() && l@ == self@.lines[self@.line],
                None => !(0 <= self@.line && self@.line < self@.lines.len()),
            },
    {
        self.get_line(self.cursor.line)
    }

    /// Clamps the cursor's line into the document and its column into the
    /// clamped line, as [`validated`] states. Never fails; repairs silently.
    pub fn validate_cursor(&mut self)
        requires
            old(self).wf(),
        ensures
            final(self)@ == validated(old(self)@),
            final(self).wf(),
    {
        let count = self.get_line_count();
        let hi = if count - 1 > 0 {
            count - 1
        } else {
            0
        };
        self.cursor.line = Self::bounds(self.cursor.line, 0, hi);
        let len = match self.get_line_length() {
            Some(n) => n,
            None => 0,
        };
        self.cursor.column = Self::bounds(self.cursor.column, 0, len);
        proof {
            assert(self@ =~~= validated(old(self)@));
        }
    }

    /// `value` forced into `[lo, hi]`.
    fn bounds(value: isize, lo: isize, hi: isize) -> (r: isize)
        ensures
            r as int == clamp(value as int, lo as int, hi as int),
    {
        let m = if value < hi {
            value
        } else {
            hi
        };
        if m > lo {
            m
        } else {
            lo
        }
    }

    /// Applies a whole program of commands in order. Application is not
    /// transactional: what an earlier command changed stays changed.
    pub fn execute(&mut self, program: &[Command])
        requires
            old(self).wf(),
        ensures
            final(self)@ == run_spec(old(self)@, program@),
            final(self).wf(),
    {
        let mut i: usize = 0;
        while i < program.len()
            invariant
                i <= program@.len(),
                self.wf(),
                self@ == run_spec(old(self)@, program@.take(i as int)),
            decreases program@.len() - i,
        {
            let ghost before = self@;
            self.apply_ref(&program[i]);
            proof {
                assert(program@.take(i + 1 as int) =~= program@.take(
                    i as int,
                ).push(program@[i as int]));
                lemma_run_snoc(old(self)@, program@.take(i as int),
                    program@[i as int]);
            }
            i = i + 1;
        }
        proof {
            assert(program@.take(program@.len() as int) =~= program@);
        }
    }

    /// Applies one command and reports its outcome, as [`step_spec`] and
    /// [`outcome_spec`] state. No command panics or aborts the session.
    pub fn apply_command(&mut self, command: Command) -> (r: Outcome)
        requires
            old(self).wf(),
        ensures
            final(self)@ == step_spec(old(self)@, command),
            r == outcome_spec(old(self)@, command),
            final(self).wf(),
    {
        self.apply_ref(&command)
    }

    /// [`Self::apply_command`], borrowing the command.
    fn apply_ref(&mut self, command: &Command) -> (r: Outcome)
        requires
            old(self).wf(),
        ensures
            final(self)@ == step_spec(old(self)@, *command),
            r == outcome_spec(old(self)@, *command),
            final(self).wf(),
    {
        match command {
            Command::Insert(c) => {
                self.insert(c.as_str());
                Outcome::Done
            },
            Command::Delete => {
                self.delete();
                Outcome::Unsupported
            },
            Command::Backspace => {
                self.backspace();
                Outcome::Done
            },
            Command::AppendLineTo(l) => {
                let target_exists = *l >= 0 && (*l as usize) < self.text.len();
                self.append_line_to(*l);
                if target_exists {
                    Outcome::Done
                } else {
                    Outcome::InvalidTarget
                }
            },
            Command::DeleteLine => {
                self.delete_line();
                Outcome::Done
            },
            Command::BreakLine => {
                self.break_line();
                Outcome::Done
            },
            Command::Goto(c) => {
                self.cursor_goto(*c);
                Outcome::Done
            },
            Command::Offset(d) => {
                self.cursor_offset(*d);
                Outcome::Done
            },
            Command::LineStart => {
                self.line_start();
                Outcome::Done
            },
            Command::LineEnd => {
                self.line_end();
                Outcome::Done
            },
            Command::Undo => {
                self.undo();
                Outcome::Unsupported
            },
            Command::Redo => {
                self.redo();
                Outcome::Unsupported
            },
        }
    }

    /// Inserts the text's characters into the validated current line at the
    /// validated column; the cursor does not advance.
    fn insert(&mut self, c: &str)
        requires
            old(self).wf(),
        ensures
            final(self)@ == insert_spec(old(self)@, c@),
            final(self).wf(),
    {
        self.validate_cursor();
        let ghost v = self@;
        if self.text.len() == 0 {
            return ;
        }
        let cs = str_chars(c);
        let vl = self.cursor.line as usize;
        let col = self.cursor.column as usize;
        proof {
            assert(v.lines[vl as int].len() <= isize::MAX as int);
        }
        if cs.len() <= isize::MAX as usize - self.text[vl].len() {
            let mut line = self.text.remove(vl);
            let ghost orig = line@;
            proof {
                assert(line@ =~= orig.subrange(0, col as int) + cs@.subrange(0, 0)
                    + orig.subrange(col as int, orig.len() as int));
            }
            let mut i: usize = 0;
            while i < cs.len()
                invariant
                    i <= cs@.len(),
                    col <= orig.len(),
                    orig.len() + cs@.len() <= isize::MAX as int,
                    line@ == orig.subrange(0, col as int) + cs@.subrange(0, i as int)
                        + orig.subrange(col as int, orig.len() as int),
                decreases cs@.len() - i,
            {
                line.insert(col + i, cs[i]);
                proof {
                    assert(line@ =~= orig.subrange(0, col as int) + cs@.subrange(0, i + 1 as int)
                        + orig.subrange(col as int, orig.len() as int));
                }
                i = i + 1;
            }
            self.text.insert(vl, line);
            proof {
                assert(cs@.subrange(0, cs@.len() as int) =~= cs@);
                assert(self@.lines =~~= v.lines.update(
                    vl as int,
                    v.lines[vl as int].subrange(0, col as int) + c@ + v.lines[vl as int].subrange(
                        col as int,
                        v.lines[vl as int].len() as int,
                    ),
                ));
                assert(self@ =~~= insert_spec(old(self)@, c@));
            }
        } else {
            proof {
                assert(self@ =~~= insert_spec(old(self)@, c@));
            }
        }
    }

    /// Reserved: deleting at the cursor has no semantics yet, so this leaves
    /// the engine unchanged; [`Self::apply_command`] reports it
    /// [`Outcome::Unsupported`].
    fn delete(&mut self)
        ensures
            final(self)@ == old(self)@,
            *final(self) == *old(self),
    {
    }

    /// Removes the character before the cursor, or at the start of a line
    /// merges that line into the one above, as [`backspace_spec`] states.
    fn backspace(&mut self)
        requires
            old(self).wf(),
        ensures
            final(self)@ == backspace_spec(old(self)@),
            final(self).wf(),
    {
        self.validate_cursor();
        let ghost v = self@;
        if self.cursor.column == 0 && self.cursor.line != 0 {
            let vl = self.cursor.line as usize;
            let above_len = self.text[vl - 1].len();
            let cur_len = self.text[vl].len();
            proof {
                assert(v.lines[vl - 1].len() <= isize::MAX as int);
            }
            if above_len <= isize::MAX as usize - 1 && cur_len <= isize::MAX as usize - above_len {
                let old_length = above_len as isize + 1;
                let target = self.cursor.line - 1;
                self.append_line_to(target);
                proof {
                    crate::laws::lemma_validate_idempotent(v);
                    assert(self@ =~~= State {
                        lines: v.lines.update(vl - 1, v.lines[vl - 1] + v.lines[vl as int]),
                        line: v.line,
                        column: v.column,
                    });
                }
                let ghost mid = self@;
                self.delete_line();
                proof {
                    assert(validated(mid) =~~= mid);
                    assert(self@ =~~= State {
                        lines: mid.lines.remove(vl as int),
                        line: mid.line,
                        column: mid.column,
                    });
                }
                self.cursor_offset(Displacement { line: -1, column: old_length });
                proof {
                    assert(self@ =~~= backspace_spec(old(self)@));
                }
            } else {
                proof {
                    assert(self@ =~~= backspace_spec(old(self)@));
                }
            }
        } else if self.cursor.column != 0 {
            let vl = self.cursor.line as usize;
            let col = self.cursor.column as usize;
            let mut line = self.text.remove(vl);
            line.remove(col - 1);
            self.text.insert(vl, line);
            proof {
                assert(self@.lines =~~= backspace_spec(old(self)@).lines);
                assert(self@ =~~= backspace_spec(old(self)@));
            }
        } else {
            proof {
                assert(self@ =~~= backspace_spec(old(self)@));
            }
        }
    }

    /// Extends the addressed line with a copy of the validated current line;
    /// the current line itself stays as it is. A target that addresses no
    /// line changes nothing.
    fn append_line_to(&mut self, l: isize)
        requires
            old(self).wf(),
        ensures
            final(self)@ == append_spec(old(self)@, l as int),
            final(self).wf(),
    {
        self.validate_cursor();
        let ghost v = self@;
        if self.text.len() == 0 {
            return ;
        }
        let vl = self.cursor.line as usize;
        let mut to_append = copy_line(&self.text[vl]);
        if l >= 0 && (l as usize) < self.text.len() {
            let t = l as usize;
            proof {
                assert(v.lines[t as int].len() <= isize::MAX as int);
            }
            if to_append.len() <= isize::MAX as usize - self.text[t].len() {
                let mut target = self.text.remove(t);
                target.append(&mut to_append);
                self.text.insert(t, target);
                proof {
                    assert(self@.lines =~~= v.lines.update(
                        t as int,
                        v.lines[t as int] + v.lines[vl as int],
                    ));
                    assert(self@ =~~= append_spec(old(self)@, l as int));
                }
            } else {
                proof {
                    assert(self@ =~~= append_spec(old(self)@, l as int));
                }
            }
        } else {
            proof {
                assert(self@ =~~= append_spec(old(self)@, l as int));
            }
        }
    }

    /// Removes the validated current line; the document may become empty,
    /// and later operations treat the missing current line as an absence.
    fn delete_line(&mut self)
        requires
            old(self).wf(),
        ensures
            final(self)@ == delete_line_spec(old(self)@),
            final(self).wf(),
    {
        self.validate_cursor();
        if self.text.len() > 0 {
            let vl = self.cursor.line as usize;
            self.text.remove(vl);
            proof {
                assert(self@.lines =~~= delete_line_spec(old(self)@).lines);
                assert(self@ =~~= delete_line_spec(old(self)@));
            }
        } else {
            proof {
                assert(self@ =~~= delete_line_spec(old(self)@));
            }
        }
    }

    /// Splits the validated current line at the validated column: the right
    /// part stays in place, the left part enters just before it, and the
    /// cursor stays put.
    fn break_line(&mut self)
        requires
            old(self).wf(),
        ensures
            final(self)@ == break_line_spec(old(self)@),
            final(self).wf(),
    {
        self.validate_cursor();
        let ghost v = self@;
        if self.text.len() == 0 {
            proof {
                assert(self@ =~~= break_line_spec(old(self)@));
            }
            return ;
        }
        if self.text.len() >= isize::MAX as usize {
            proof {
                assert(self@ =~~= break_line_spec(old(self)@));
            }
            return ;
        }
        let vl = self.cursor.line as usize;
        let col = self.cursor.column as usize;
        let n = self.text[vl].len();
        let mut left: Vec<char> = Vec::new();
        let mut i: usize = 0;
        while i < col
            invariant
                i <= col,
                col <= n,
                n == v.lines[vl as int].len(),
                self@ == v,
                0 <= vl < v.lines.len(),
                left@ == v.lines[vl as int].subrange(0, i as int),
            decreases col - i,
        {
            left.push(self.text[vl][i]);
            proof {
                assert(v.lines[vl as int].subrange(0, i + 1 as int) =~= v.lines[
                    vl as int
                ].subrange(0, i as int).push(v.lines[vl as int][i as int]));
            }
            i = i + 1;
        }
        let mut right: Vec<char> = Vec::new();
        let mut j: usize = col;
        while j < n
            invariant
                col <= j <= n,
                n == v.lines[vl as int].len(),
                self@ == v,
                0 <= vl < v.lines.len(),
                right@ == v.lines[vl as int].subrange(col as int, j as int),
            decreases n - j,
        {
            right.push(self.text[vl][j]);
            proof {
                assert(v.lines[vl as int].subrange(col as int, j + 1 as int) =~= v.lines[
                    vl as int
                ].subrange(col as int, j as int).push(v.lines[vl as int][j as int]));
            }
            j = j + 1;
        }
        self.text.remove(vl);
        self.text.insert(vl, right);
        self.text.insert(vl, left);
        proof {
            assert(self@.lines =~~= break_line_spec(old(self)@).lines);
            assert(self@ =~~= break_line_spec(old(self)@));
        }
    }

    /// Sets the cursor unconditionally; validation comes lazily, on the next
    /// position-dependent use.
    fn cursor_goto(&mut self, c: Cursor)
        ensures
            final(self)@ == goto_spec(old(self)@, c.line as int, c.column as int),
            old(self).wf() ==> final(self).wf(),
    {
        self.cursor = c;
    }

    /// Adds the displacement componentwise, without clamping to the
    /// document; the coordinates saturate at the ends of the `isize` range.
    fn cursor_offset(&mut self, d: Displacement)
        ensures
            final(self)@ == offset_spec(old(self)@, d.line as int, d.column as int),
            old(self).wf() ==> final(self).wf(),
    {
        self.cursor.line = sat_add(self.cursor.line, d.line);
        self.cursor.column = sat_add(self.cursor.column, d.column);
    }

    /// Sets the column to the line's start.
    fn line_start(&mut self)
        ensures
            final(self)@ == line_start_spec(old(self)@),
            old(self).wf() ==> final(self).wf(),
    {
        self.cursor.column = 0;
    }

    /// Validates the cursor, then sets the column past the current line's
    /// last character; only a document with no line at all leaves the
    /// (validated) column as it is.
    fn line_end(&mut self)
        requires
            old(self).wf(),
        ensures
            final(self)@ == line_end_spec(old(self)@),
            final(self).wf(),
    {
        self.validate_cursor();
        let current = self.get_current_line();
        match current {
            Some(l) => {
                let n = l.len();
                proof {
                    assert(self@.lines[self@.line].len() <= isize::MAX as int);
                }
                self.cursor.column = n as isize;
            },
            None => {},
        }
    }

    /// Reserved: history has no semantics yet, so this leaves the engine
    /// unchanged; [`Self::apply_command`] reports it
    /// [`Outcome::Unsupported`].
    fn undo(&mut self)
        ensures
            final(self)@ == old(self)@,
            *final(self) == *old(self),
    {
    }

    /// Reserved: history has no semantics yet, so this leaves the engine
    /// unchanged; [`Self::apply_command`] reports it
    /// [`Outcome::Unsupported`].
    fn redo(&mut self)
        ensures
            final(self)@ == old(self)@,
            *final(self) == *old(self),
    {
    }

    /// The document rendered back to text: lines joined with `"\r\n"` — the
    /// deliberate asymmetry with [`Editor::from_text`], which splits on the
    /// line feed alone — or the fixed fallback where no line is left.
    pub fn to_text(&self) -> (r: String)
        ensures
            r@ == render_spec(self@.lines),
    {
        if self.text.len() == 0 {
            return "Could not reduce text !".to_owned();
        }
        let mut r = String::new();
        push_line(&mut r, &self.text[0]);
        proof {
            assert(r@ =~= join_crlf(self@.lines.take(1)));
        }
        let mut i: usize = 1;
        while i < self.text.len()
            invariant
                1 <= i <= self@.lines.len(),
                r@ == join_crlf(self@.lines.take(i as int)),
            decreases self@.lines.len() - i,
        {
            push_char(&mut r, '\r');
            push_char(&mut r, '\n');
            push_line(&mut r, &self.text[i]);
            proof {
                assert(self@.lines.take(i + 1 as int).drop_last() =~= self@.lines.take(i as int));
                assert(r@ =~= join_crlf(self@.lines.take(i + 1 as int)));
            }
            i = i + 1;
        }
        proof {
            assert(self@.lines.take(self@.lines.len() as int) =~= self@.lines);
        }
        r
    }
}

impl Default for Editor {
    /// An engine with no lines at all and the cursor at the origin.
    fn default() -> (r: Editor)
        ensures
            r@.lines == Seq::<Seq<char>>::empty(),
            r@.line == 0,
            r@.column == 0,
            r.wf(),
    {
        let r = Editor { cursor: Cursor { column: 0, line: 0 }, text: Vec::new() };
        proof {
            assert(r@.lines =~~= Seq::<Seq<char>>::empty());
        }
        r
    }
}

/// `a + b` held to the `isize` range, saturating at its ends.
fn sat_add(a: isize, b: isize) -> (r: isize)
    ensures
        r as int == sat_add_spec(a as int, b as int),
{
    if b >= 0 {
        if a > isize::MAX - b {
            isize::MAX
        } else {
            a + b
        }
    } else {
        if a < isize::MIN - b {
            isize::MIN
        } else {
            a + b
        }
    }
}

/// Inserts the text at the cursor and then moves the cursor right by the
/// text's byte length — the composing caller's convention for keeping the
/// cursor after what it typed.
pub fn insertion(to_insert: String, editor: &mut Editor)
    requires
        old(editor).wf(),
    ensures
        ({
            let n = encode_utf8(to_insert@).len() as usize;
            let off = if n > isize::MAX as usize {
                isize::MAX as int
            } else {
                n as int
            };
            final(editor)@ == offset_spec(insert_spec(old(editor)@, to_insert@), 0, off)
        }),
        final(editor).wf(),
{
    let n = byte_length(&to_insert);
    let off: isize = if n > isize::MAX as usize {
        isize::MAX
    } else {
        n as isize
    };
    editor.insert(to_insert.as_str());
    editor.cursor_offset(Displacement { line: 0, column: off });
}

} // verus!

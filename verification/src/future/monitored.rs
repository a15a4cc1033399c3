//! A set of annotated futures shown one line each and redrawn in place.
//!
//! Every poll draws, for each future pushed so far, a freshly cleared line with
//! the spinner frame, the elapsed time and (while it still runs) the future's
//! annotation, then moves the cursor back up over the lines of the futures that
//! still run. A completed future gives up its line; when every future has
//! completed the cursor is shown again. Polling the futures and the clock is
//! the caller's part; the functions here say what goes to the terminal.

use vstd::prelude::*;
use vstd::string::*;

use crate::group::occupied;
use crate::style::{styled, TextStyle};
use crate::term::{
    clear_current_line_seq, clear_line, clear_line_seq, hide_cursor_seq, move_to_column_0_seq, move_up_seq,
    show_cursor_seq,
};
use crate::text::decimal;

verus! {

/// The escape that crossterm's `cursor::Hide` command writes: `ESC [?25l`.
#[verifier::external_body]
fn ansi_hide() -> (s: String)
    ensures
        s@ == hide_cursor_seq(),
{
    let mut s = String::new();
    let _ = crossterm::Command::write_ansi(&crossterm::cursor::Hide, &mut s);
    s
}

/// The escape that crossterm's `cursor::Show` command writes: `ESC [?25h`.
#[verifier::external_body]
fn ansi_show() -> (s: String)
    ensures
        s@ == show_cursor_seq(),
{
    let mut s = String::new();
    let _ = crossterm::Command::write_ansi(&crossterm::cursor::Show, &mut s);
    s
}

/// The escape that crossterm's `terminal::Clear` command writes for
/// `ClearType::CurrentLine`: `ESC [2K`.
#[verifier::external_body]
fn ansi_clear_current_line() -> (s: String)
    ensures
        s@ == clear_current_line_seq(),
{
    let mut s = String::new();
    let _ = crossterm::Command::write_ansi(&crossterm::terminal::Clear(crossterm::terminal::ClearType::CurrentLine), &mut s);
    s
}

/// The escape that crossterm's `cursor::MoveUp(n)` command writes: `ESC [`, `n`
/// in decimal, `A`.
#[verifier::external_body]
fn ansi_move_up(n: u16) -> (s: String)
    ensures
        s@ == move_up_seq(n as nat),
{
    let mut s = String::new();
    let _ = crossterm::Command::write_ansi(&crossterm::cursor::MoveUp(n), &mut s);
    s
}

/// The escape that crossterm's `cursor::MoveToColumn(column)` command writes:
/// `ESC [`, `column + 1` in decimal, `G` (columns count from one on the wire).
#[verifier::external_body]
fn ansi_move_to_column(column: u16) -> (s: String)
    requires
        column < u16::MAX,
    ensures
        s@ == seq!['\x1b', '['] + decimal((column + 1) as nat) + seq!['G'],
{
    let mut s = String::new();
    let _ = crossterm::Command::write_ansi(&crossterm::cursor::MoveToColumn(column), &mut s);
    s
}

/// What each line starts with: the spinner frame and a space, then the elapsed
/// time as `[<secs>s] `, each only when there is one.
pub open spec fn line_prefix(
    spinner: Option<&'static str>,
    spinner_style: TextStyle,
    elapsed: Option<Seq<char>>,
) -> Seq<char> {
    (match spinner {
        Some(frame) => styled(spinner_style, frame@) + seq![' '],
        None => Seq::empty(),
    }) + (match elapsed {
        Some(secs) => seq!['['] + secs + seq!['s', ']', ' '],
        None => Seq::empty(),
    })
}

/// A still running future's annotation and the end of its line; nothing for a
/// completed one.
pub open spec fn annotation_text(annotation: Option<String>, style: TextStyle) -> Seq<char> {
    match annotation {
        Some(a) => styled(style, a@) + seq!['\n'],
        None => Seq::empty(),
    }
}

/// One cleared line per annotation slot: the prefix, then the annotation.
pub open spec fn annotation_lines(annotations: Seq<Option<String>>, prefix: Seq<char>, style: TextStyle) -> Seq<char>
    decreases annotations.len(),
{
    if annotations.len() == 0 {
        Seq::empty()
    } else {
        annotation_lines(annotations.drop_last(), prefix, style) + clear_line_seq() + prefix
            + annotation_text(annotations.last(), style)
    }
}

/// Giving up the last line: clear it, move up one line, clear that one.
pub open spec fn remove_last_line_seq() -> Seq<char> {
    clear_current_line_seq() + move_up_seq(1) + clear_current_line_seq()
}

/// Restoring the terminal once every future completed: show the cursor, clear the
/// line, move to the first column.
pub open spec fn restore_seq() -> Seq<char> {
    show_cursor_seq() + clear_current_line_seq() + move_to_column_0_seq()
}

/// Moving back up over the lines of the `running` futures (the count is taken
/// modulo 2^16, the width of the terminal command's argument); nothing when none
/// runs.
pub open spec fn move_back_seq(running: nat) -> Seq<char> {
    if running > 0 { move_up_seq(running % 0x10000) } else { Seq::empty() }
}

/// The number of line breaks in `s`.
pub open spec fn newlines(s: Seq<char>) -> nat
    decreases s.len(),
{
    if s.len() == 0 {
        0
    } else {
        newlines(s.drop_last()) + if s.last() == '\n' { 1nat } else { 0 }
    }
}

pub(crate) proof fn lemma_newlines_concat(x: Seq<char>, y: Seq<char>)
    ensures
        newlines(x + y) == newlines(x) + newlines(y),
    decreases y.len(),
{
    if y.len() > 0 {
        assert((x + y).drop_last() =~= x + y.drop_last());
        lemma_newlines_concat(x, y.drop_last());
    } else {
        assert(x + y =~= x);
    }
}

pub(crate) proof fn lemma_no_newline(s: Seq<char>)
    requires
        forall|i: int| 0 <= i < s.len() ==> s[i] != '\n',
    ensures
        newlines(s) == 0,
    decreases s.len(),
{
    if s.len() > 0 {
        lemma_no_newline(s.drop_last());
    }
}

proof fn lemma_styled_newlines(style: TextStyle, text: Seq<char>)
    requires
        style.wf(),
    ensures
        newlines(styled(style, text)) == newlines(text),
{
    let p = style.prefix@;
    let q = style.suffix@;
    assert forall|i: int| 0 <= i < p.len() implies p[i] != '\n' by {
        if 2 <= i < p.len() - 1 {
            assert(crate::style::sgr_param_char(p[i]));
        }
    }
    lemma_no_newline(p);
    assert forall|i: int| 0 <= i < q.len() implies q[i] != '\n' by {}
    lemma_no_newline(q);
    lemma_newlines_concat(p, text);
    lemma_newlines_concat(p + text, q);
}

/// Each line a poll draws ends one running future's line: a frame holds exactly
/// as many line breaks as there are running futures, provided the line prefix and
/// the annotations hold none themselves.
pub proof fn lemma_frame_lines_are_running_futures(
    annotations: Seq<Option<String>>,
    prefix: Seq<char>,
    style: TextStyle,
)
    requires
        style.wf(),
        newlines(prefix) == 0,
        forall|i: int| 0 <= i < annotations.len() && annotations[i] is Some ==> newlines(#[trigger] annotations[i]->0@) == 0,
    ensures
        newlines(annotation_lines(annotations, prefix, style)) == occupied(annotations),
    decreases annotations.len(),
{
    if annotations.len() > 0 {
        let init = annotations.drop_last();
        lemma_frame_lines_are_running_futures(init, prefix, style);
        let rest = annotation_lines(init, prefix, style);
        assert(clear_line_seq() =~= seq!['\x1b', '[', '2', 'K', '\x1b', '[', '1', 'G']);
        lemma_no_newline(clear_line_seq());
        lemma_newlines_concat(rest, clear_line_seq());
        lemma_newlines_concat(rest + clear_line_seq(), prefix);
        let last = annotations.last();
        lemma_newlines_concat(rest + clear_line_seq() + prefix, annotation_text(last, style));
        match last {
            Some(a) => {
                assert(annotations[annotations.len() - 1] == last);
                lemma_styled_newlines(style, a@);
                lemma_newlines_concat(styled(style, a@), seq!['\n']);
                assert(newlines(seq!['\n']) == 1) by {
                    assert(seq!['\n'].drop_last() =~= Seq::<char>::empty());
                    assert(newlines(Seq::<char>::empty()) == 0);
                }
            },
            None => {},
        }
    }
}

/// Completing a running future frees exactly one line: the futures still
/// running number one fewer.
pub proof fn lemma_completion_frees_one_line<T>(slots: Seq<Option<T>>, id: int)
    requires
        0 <= id < slots.len(),
        slots[id] is Some,
    ensures
        occupied(slots.update(id, None)) + 1 == occupied(slots),
    decreases slots.len(),
{
    let after = slots.update(id, None);
    if id == slots.len() - 1 {
        assert(after.drop_last() =~= slots.drop_last());
    } else {
        assert(after.drop_last() =~= slots.drop_last().update(id, None));
        lemma_completion_frees_one_line(slots.drop_last(), id);
    }
}

/// Annotated futures shown one line each: the futures `inner`, one annotation slot
/// per future pushed (emptied when it completes), the current spinner frame, and
/// how lines are styled.
pub struct Monitored<U> {
    /// The futures being monitored.
    pub inner: U,
    /// The annotation of each pushed future, by push order; `None` once completed.
    pub annotations: Vec<Option<String>>,
    /// Style of the annotations.
    pub annotation_style: TextStyle,
    /// The current spinner frame.
    pub spinner: Option<&'static str>,
    /// Style of the spinner frame.
    pub spinner_style: TextStyle,
    /// Whether each line shows the elapsed time.
    pub with_elapsed_time: bool,
}

impl<U> Monitored<U> {
    /// Both styles are well formed.
    pub open spec fn wf(&self) -> bool {
        self.annotation_style.wf() && self.spinner_style.wf()
    }

    /// The elapsed time that lines show, given its rendering `secs`.
    pub open spec fn elapsed_shown(&self, secs: Seq<char>) -> Option<Seq<char>> {
        if self.with_elapsed_time { Some(secs) } else { None }
    }

    /// Everything a poll draws before the futures are polled, with `secs` the
    /// elapsed time: hide the cursor, then one line per annotation slot.
    pub open spec fn frame_spec(&self, secs: Seq<char>) -> Seq<char> {
        hide_cursor_seq() + annotation_lines(
            self.annotations@,
            line_prefix(self.spinner, self.spinner_style, self.elapsed_shown(secs)),
            self.annotation_style,
        )
    }

    /// Monitor `inner`, with nothing pushed, no spinner frame yet, plain styles and
    /// no elapsed time.
    pub fn new(inner: U) -> (m: Self)
        ensures
            m.inner == inner,
            m.annotations@.len() == 0,
            m.spinner is None,
            m.annotation_style.prefix@.len() == 0 && m.annotation_style.suffix@.len() == 0,
            m.spinner_style.prefix@.len() == 0 && m.spinner_style.suffix@.len() == 0,
            !m.with_elapsed_time,
            m.wf(),
    {
        Monitored {
            inner,
            annotations: Vec::new(),
            annotation_style: TextStyle::plain(),
            spinner: None,
            spinner_style: TextStyle::plain(),
            with_elapsed_time: false,
        }
    }

    /// Style the spinner frame with `spinner_style`.
    pub fn with_spinner_style(self, spinner_style: owo_colors::Style) -> (m: Self)
        requires
            self.wf(),
        ensures
            m.wf(),
            m.spinner_style.written_for(spinner_style),
            m.annotation_style == self.annotation_style,
            m.inner == self.inner,
            m.annotations == self.annotations,
            m.spinner == self.spinner,
            m.with_elapsed_time == self.with_elapsed_time,
    {
        Monitored { spinner_style: TextStyle::from_owo(spinner_style), ..self }
    }

    /// Style the annotations with `annotation_style`.
    pub fn with_annotation_style(self, annotation_style: owo_colors::Style) -> (m: Self)
        requires
            self.wf(),
        ensures
            m.wf(),
            m.annotation_style.written_for(annotation_style),
            m.spinner_style == self.spinner_style,
            m.inner == self.inner,
            m.annotations == self.annotations,
            m.spinner == self.spinner,
            m.with_elapsed_time == self.with_elapsed_time,
    {
        Monitored { annotation_style: TextStyle::from_owo(annotation_style), ..self }
    }

    /// Show the elapsed time on each line, or not.
    pub fn with_elapsed_time(self, with_elapsed_time: bool) -> (m: Self)
        ensures
            m.with_elapsed_time == with_elapsed_time,
            m.inner == self.inner,
            m.annotations == self.annotations,
            m.spinner == self.spinner,
            m.annotation_style == self.annotation_style,
            m.spinner_style == self.spinner_style,
    {
        Monitored { with_elapsed_time, ..self }
    }

    /// Add a future annotated with `annotation`; the result is its id, the index of
    /// its slot, by which its completion is reported.
    pub fn push(&mut self, annotation: String) -> (id: usize)
        ensures
            id == old(self).annotations@.len(),
            final(self).annotations@ == old(self).annotations@.push(Some(annotation)),
            final(self).inner == old(self).inner,
            final(self).spinner == old(self).spinner,
            final(self).annotation_style == old(self).annotation_style,
            final(self).spinner_style == old(self).spinner_style,
            final(self).with_elapsed_time == old(self).with_elapsed_time,
    {
        let id = self.annotations.len();
        self.annotations.push(Some(annotation));
        id
    }

    /// The spinner ticked and shows `frame` now.
    pub fn on_tick(&mut self, frame: Option<&'static str>)
        ensures
            final(self).spinner == frame,
            final(self).annotations == old(self).annotations,
            final(self).inner == old(self).inner,
            final(self).annotation_style == old(self).annotation_style,
            final(self).spinner_style == old(self).spinner_style,
            final(self).with_elapsed_time == old(self).with_elapsed_time,
    {
        self.spinner = frame;
    }

    /// What a poll draws before the futures are polled, with `secs` the rendered
    /// elapsed time.
    pub fn frame(&self, secs: &str) -> (s: String)
        ensures
            s@ == self.frame_spec(secs@),
    {
        let mut prefix = String::new();
        if let Some(frame) = self.spinner {
            self.spinner_style.push_styled(&mut prefix, frame);
            prefix.push(' ');
        }
        if self.with_elapsed_time {
            prefix.push('[');
            prefix.append(secs);
            prefix.append("s] ");
        }
        proof {
            reveal_strlit("s] ");
            assert(prefix@ =~= line_prefix(self.spinner, self.spinner_style, self.elapsed_shown(secs@)));
        }
        let mut buf = ansi_hide();
        let n = self.annotations.len();
        let mut i: usize = 0;
        while i < n
            invariant
                n == self.annotations@.len(),
                i <= n,
                buf@ == hide_cursor_seq() + annotation_lines(self.annotations@.take(i as int), prefix@, self.annotation_style),
            decreases n - i,
        {
            buf.append(clear_line());
            buf.append(prefix.as_str());
            match &self.annotations[i] {
                Some(a) => {
                    self.annotation_style.push_styled(&mut buf, a.as_str());
                    buf.push('\n');
                },
                None => {},
            }
            proof {
                let a = self.annotations@;
                assert(a.take(i + 1).drop_last() =~= a.take(i as int));
                assert(a.take(i + 1).last() == a[i as int]);
                assert(buf@ =~= hide_cursor_seq() + annotation_lines(a.take(i + 1), prefix@, self.annotation_style));
            }
            i = i + 1;
        }
        proof {
            assert(self.annotations@.take(n as int) =~= self.annotations@);
        }
        buf
    }

    /// The future with id `id` completed: its slot is emptied and its line given
    /// up. The result is what goes to the terminal.
    pub fn complete(&mut self, id: usize) -> (s: String)
        requires
            id < old(self).annotations@.len(),
        ensures
            final(self).annotations@ == old(self).annotations@.update(id as int, None),
            s@ == remove_last_line_seq(),
            final(self).inner == old(self).inner,
            final(self).spinner == old(self).spinner,
            final(self).annotation_style == old(self).annotation_style,
            final(self).spinner_style == old(self).spinner_style,
            final(self).with_elapsed_time == old(self).with_elapsed_time,
    {
        self.annotations.set(id, None);
        let mut s = ansi_clear_current_line();
        s.append(ansi_move_up(1).as_str());
        s.append(ansi_clear_current_line().as_str());
        s
    }

    /// What goes to the terminal once every future completed.
    pub fn finish(&self) -> (s: String)
        ensures
            s@ == restore_seq(),
    {
        let mut s = ansi_show();
        s.append(ansi_clear_current_line().as_str());
        let col = ansi_move_to_column(0);
        proof {
            assert(decimal(1) == seq!['1']);
            assert(col@ =~= move_to_column_0_seq());
        }
        s.append(col.as_str());
        s
    }

    /// What goes to the terminal after a poll that did not end the stream: move
    /// back up over the lines of the futures still running.
    pub fn move_back(&self) -> (s: String)
        ensures
            s@ == move_back_seq(occupied(self.annotations@)),
    {
        let running = crate::group::active_count(&self.annotations);
        if running > 0 {
            let n: u16 = #[verifier::truncate] (running as u16);
            proof {
                assert(n == running % 0x10000) by (bit_vector)
                    requires n == running as u16;
            }
            ansi_move_up(n)
        } else {
            String::new()
        }
    }
}

} // verus!

//! The rendering core shared by the multi-line groups, and the frames a single
//! standalone line writes.
//!
//! A group draws one line per active row. Each repaint writes the whole frame in
//! one piece: it hides the cursor, redraws every row on a freshly cleared line,
//! clears the lines left over from rows that completed since the previous frame,
//! and moves the cursor back up to the first row.

use std::collections::VecDeque;

use vstd::prelude::*;
use vstd::string::*;

use crate::term::{clear_line, clear_line_seq, hide_cursor, hide_cursor_seq, move_up_seq, push_move_up, Output};
use crate::future::monitored::{lemma_newlines_concat, lemma_no_newline, newlines};
use crate::text::decimal;
use crate::theme::Theme;

verus! {

/// The state a group keeps between repaints.
pub struct GroupCore<G, C> {
    /// Default theme for rows that don't supply their own.
    pub theme: Theme<G, C>,
    /// Default spinner style for rows that don't supply their own.
    pub spinner_style: owo_colors::Style,
    /// Default label style for rows that don't supply their own.
    pub annotation_style: owo_colors::Style,
    /// Default for showing elapsed time on rows that don't opt in themselves.
    pub with_elapsed_time: bool,
    /// The current spinner frame.
    pub spinner_frame: Option<&'static str>,
    /// Number of spinner ticks so far.
    pub spinner_tick: u64,
    /// Where the frames go.
    pub output: Output,
    /// Whether `output` is a terminal; nothing is drawn otherwise.
    pub is_tty: bool,
    /// Rows drawn by the previous repaint.
    pub rendered_lines: usize,
    /// Whether anything changed since the previous repaint.
    pub dirty: bool,
}

/// What one row shows besides its own state: elapsed time and styles, each the
/// row's own choice or else the group's default.
pub struct RowFrame {
    /// Whether the elapsed time is shown on this row.
    pub show_elapsed: bool,
    /// The spinner style for this row.
    pub spinner_style: owo_colors::Style,
    /// The label style for this row.
    pub annotation_style: owo_colors::Style,
}

/// Each row on a freshly cleared line, ended by a newline.
pub open spec fn rows_text(rows: Seq<Seq<char>>) -> Seq<char>
    decreases rows.len(),
{
    if rows.len() == 0 {
        Seq::empty()
    } else {
        rows_text(rows.drop_last()) + clear_line_seq() + rows.last() + seq!['\n']
    }
}

/// `n` cleared lines.
pub open spec fn cleared_lines(n: nat) -> Seq<char>
    decreases n,
{
    if n == 0 { Seq::empty() } else { cleared_lines((n - 1) as nat) + clear_line_seq() + seq!['\n'] }
}

/// Rows of the previous frame that are no longer drawn.
pub open spec fn stale_lines(rendered: nat, active: nat) -> nat {
    if rendered > active { (rendered - active) as nat } else { 0 }
}

/// Whether a repaint draws anything: only on a terminal, only when something
/// changed, and only when there is a row to draw or a previous row to clear.
pub open spec fn should_repaint(is_tty: bool, dirty: bool, active: nat, rendered: nat) -> bool {
    is_tty && dirty && (active > 0 || rendered > 0)
}

/// The frame a repaint writes for `rows` after a frame of `rendered` lines: hide
/// the cursor, draw the rows, clear the stale lines, move back up over all of
/// them.
pub open spec fn repaint_text(rows: Seq<Seq<char>>, rendered: nat) -> Seq<char> {
    let stale = stale_lines(rendered, rows.len());
    let total = rows.len() + stale;
    hide_cursor_seq() + rows_text(rows) + cleared_lines(stale)
        + if total > 0 { move_up_seq(total) } else { Seq::empty() }
}

/// The frame a standalone line writes: hide the cursor, clear the line, draw.
pub open spec fn standalone_text(row: Seq<char>) -> Seq<char> {
    hide_cursor_seq() + clear_line_seq() + row
}

/// The number of occupied slots.
pub open spec fn occupied<T>(slots: Seq<Option<T>>) -> nat
    decreases slots.len(),
{
    if slots.len() == 0 {
        0
    } else {
        occupied(slots.drop_last()) + if slots.last() is Some { 1nat } else { 0 }
    }
}

/// The number of slots still holding work.
pub fn active_count<T>(slots: &Vec<Option<T>>) -> (n: usize)
    ensures
        n == occupied(slots@),
{
    let mut n: usize = 0;
    let mut i: usize = 0;
    while i < slots.len()
        invariant
            i <= slots.len(),
            n == occupied(slots@.take(i as int)),
            n <= i,
        decreases slots.len() - i,
    {
        proof {
            assert(slots@.take(i + 1).drop_last() =~= slots@.take(i as int));
        }
        if slots[i].is_some() {
            n = n + 1;
        }
        i = i + 1;
    }
    proof {
        assert(slots@.take(slots.len() as int) =~= slots@);
    }
    n
}

/// The frame a standalone line writes for `row`.
pub fn standalone_frame(row: &str) -> (s: String)
    ensures
        s@ == standalone_text(row@),
{
    let mut buf = String::new();
    buf.append(hide_cursor());
    buf.append(clear_line());
    buf.append(row);
    assert(buf@ =~= standalone_text(row@));
    buf
}

impl<G, C> GroupCore<G, C> {
    /// A group core rendering with `theme` to `output` (a terminal when `is_tty`):
    /// `plain` as the default styles, no elapsed time, no spinner frame yet, nothing
    /// drawn, and a first repaint pending.
    pub fn new(theme: Theme<G, C>, output: Output, is_tty: bool, plain: owo_colors::Style) -> (g: Self)
        ensures
            g.theme == theme,
            g.spinner_style == plain,
            g.annotation_style == plain,
            !g.with_elapsed_time,
            g.spinner_frame is None,
            g.spinner_tick == 0,
            g.output == output,
            g.is_tty == is_tty,
            g.rendered_lines == 0,
            g.dirty,
    {
        GroupCore {
            theme,
            spinner_style: plain,
            annotation_style: plain,
            with_elapsed_time: false,
            spinner_frame: None,
            spinner_tick: 0,
            output,
            is_tty,
            rendered_lines: 0,
            dirty: true,
        }
    }

    /// Flag that the next repaint has something new to draw.
    pub fn mark_dirty(&mut self)
        ensures
            *final(self) == (GroupCore { dirty: true, ..*old(self) }),
    {
        self.dirty = true;
    }

    /// The spinner ticked with `frame`: show it, count the tick (wrapping), and
    /// repaint.
    pub fn on_tick(&mut self, frame: Option<&'static str>)
        ensures
            *final(self) == (GroupCore {
                spinner_frame: frame,
                spinner_tick: if old(self).spinner_tick == u64::MAX { 0 } else { (old(self).spinner_tick + 1) as u64 },
                dirty: true,
                ..*old(self)
            }),
    {
        self.spinner_frame = frame;
        self.spinner_tick = if self.spinner_tick == u64::MAX { 0 } else { self.spinner_tick + 1 };
        self.dirty = true;
    }

    /// What a row shows besides its state: elapsed time when the row or the group
    /// asks for it, and the row's styles where it has them, the group's otherwise.
    pub fn row_frame(
        &self,
        row_show_elapsed: bool,
        row_spinner_style: Option<owo_colors::Style>,
        row_annotation_style: Option<owo_colors::Style>,
    ) -> (f: RowFrame)
        ensures
            f.show_elapsed == (row_show_elapsed || self.with_elapsed_time),
            f.spinner_style == match row_spinner_style { Some(s) => s, None => self.spinner_style },
            f.annotation_style == match row_annotation_style { Some(s) => s, None => self.annotation_style },
    {
        RowFrame {
            show_elapsed: row_show_elapsed || self.with_elapsed_time,
            spinner_style: match row_spinner_style { Some(s) => s, None => self.spinner_style },
            annotation_style: match row_annotation_style { Some(s) => s, None => self.annotation_style },
        }
    }

    /// Repaint with the already rendered `rows`, one per active row. Returns the
    /// frame to write, or `None` when nothing is to be drawn (then nothing changes).
    /// After a repaint the group remembers how many rows it drew and is clean.
    pub fn repaint(&mut self, rows: &Vec<String>) -> (frame: Option<String>)
        ensures
            should_repaint(old(self).is_tty, old(self).dirty, rows@.len(), old(self).rendered_lines as nat) ==> {
                &&& frame is Some
                &&& frame->0@ == repaint_text(rows@.map_values(|r: String| r@), old(self).rendered_lines as nat)
                &&& final(self).rendered_lines == rows@.len()
                &&& !final(self).dirty
            },
            !should_repaint(old(self).is_tty, old(self).dirty, rows@.len(), old(self).rendered_lines as nat) ==> {
                &&& frame is None
                &&& final(self).rendered_lines == old(self).rendered_lines
                &&& final(self).dirty == old(self).dirty
            },
            final(self).spinner_frame == old(self).spinner_frame,
            final(self).spinner_tick == old(self).spinner_tick,
            final(self).is_tty == old(self).is_tty,
            final(self).with_elapsed_time == old(self).with_elapsed_time,
            old(self).is_tty && old(self).dirty && (old(self).rendered_lines > 0 || rows@.len() > 0) ==> frame is Some,
            !old(self).is_tty || !old(self).dirty ==> frame is None,
            final(self).theme == old(self).theme,
            final(self).output == old(self).output,
            final(self).spinner_style == old(self).spinner_style,
            final(self).annotation_style == old(self).annotation_style,
    {
        let active = rows.len();
        if !(self.is_tty && self.dirty && (active > 0 || self.rendered_lines > 0)) {
            return None;
        }
        self.dirty = false;
        let ghost views = rows@.map_values(|r: String| r@);
        let mut buf = String::new();
        buf.append(hide_cursor());
        let mut i: usize = 0;
        while i < active
            invariant
                active == rows.len(),
                views == rows@.map_values(|r: String| r@),
                i <= active,
                buf@ == hide_cursor_seq() + rows_text(views.take(i as int)),
            decreases active - i,
        {
            buf.append(clear_line());
            buf.append(rows[i].as_str());
            buf.push('\n');
            proof {
                assert(views.take(i + 1).drop_last() =~= views.take(i as int));
                assert(views.take(i + 1).last() == rows@[i as int]@);
                assert(buf@ =~= hide_cursor_seq() + rows_text(views.take(i + 1)));
            }
            i = i + 1;
        }
        proof {
            assert(views.take(active as int) =~= views);
        }
        let stale: usize = if self.rendered_lines > active { self.rendered_lines - active } else { 0 };
        let mut j: usize = 0;
        while j < stale
            invariant
                j <= stale,
                buf@ == hide_cursor_seq() + rows_text(views) + cleared_lines(j as nat),
            decreases stale - j,
        {
            buf.append(clear_line());
            buf.push('\n');
            proof {
                assert(buf@ =~= hide_cursor_seq() + rows_text(views) + cleared_lines((j + 1) as nat));
            }
            j = j + 1;
        }
        let total: usize = active + stale;
        let ghost before_move = buf@;
        if total > 0 {
            push_move_up(&mut buf, total as u64);
        }
        proof {
            assert(stale == stale_lines(old(self).rendered_lines as nat, views.len()));
            assert(buf@ =~= repaint_text(views, old(self).rendered_lines as nat));
        }
        self.rendered_lines = active;
        Some(buf)
    }
}

/// How a group's poll ends.
pub enum GroupPoll<O> {
    /// Hand out this output.
    Yield(O),
    /// Every slot has finished and every output has been handed out.
    Finished,
    /// Outputs are still to come.
    Pending,
}

/// The bookkeeping behind a group's polls: which slots still run, and the
/// outputs that were produced but not yet handed out, oldest first. The ghost
/// records `produced` and `handed` keep every output produced and every output
/// handed out so far, in order.
pub struct GroupQueue<O> {
    /// Whether each slot, by push order, still runs.
    pub active: Vec<bool>,
    /// Outputs waiting to be handed out, in the order they were produced.
    pub buffer: VecDeque<O>,
    /// Every output produced so far, in production order.
    pub produced: Ghost<Seq<O>>,
    /// Every output handed out so far, in hand-out order.
    pub handed: Ghost<Seq<O>>,
}

/// No slot of `active` still runs.
pub open spec fn none_active(active: Seq<bool>) -> bool {
    forall|i: int| 0 <= i < active.len() ==> !active[i]
}

impl<O> GroupQueue<O> {
    /// What was handed out, followed by what waits, is everything produced.
    pub open spec fn wf(&self) -> bool {
        self.handed@ + self.buffer@ == self.produced@
    }

    /// A queue without slots or outputs.
    pub fn new() -> (q: Self)
        ensures
            q.active@.len() == 0,
            q.buffer@.len() == 0,
            q.produced@.len() == 0,
            q.handed@.len() == 0,
            q.wf(),
    {
        let q = GroupQueue { active: Vec::new(), buffer: VecDeque::new(), produced: Ghost(Seq::empty()), handed: Ghost(Seq::empty()) };
        assert(q.handed@ + q.buffer@ =~= q.produced@);
        q
    }

    /// Add a running slot; the result is its index.
    pub fn add(&mut self) -> (slot: usize)
        ensures
            slot == old(self).active@.len(),
            final(self).active@ == old(self).active@.push(true),
            final(self).buffer@ == old(self).buffer@,
            final(self).produced == old(self).produced,
            final(self).handed == old(self).handed,
    {
        let slot = self.active.len();
        self.active.push(true);
        slot
    }

    /// Whether the group has no slot at all; such a group ends at once.
    pub fn is_empty(&self) -> (r: bool)
        ensures
            r == (self.active@.len() == 0),
    {
        self.active.len() == 0
    }

    /// Whether `slot` exists and still runs, so that it is to be polled.
    pub fn is_active(&self, slot: usize) -> (r: bool)
        ensures
            r == (slot < self.active@.len() && self.active@[slot as int]),
    {
        slot < self.active.len() && self.active[slot]
    }

    /// The running `slot` finished with `out`: it is never polled again, and `out`
    /// waits behind the outputs already buffered.
    pub fn complete(&mut self, slot: usize, out: O)
        requires
            slot < old(self).active@.len(),
            old(self).active@[slot as int],
        ensures
            final(self).active@ == old(self).active@.update(slot as int, false),
            final(self).buffer@ == old(self).buffer@.push(out),
            final(self).produced@ == old(self).produced@.push(out),
            final(self).handed == old(self).handed,
            old(self).wf() ==> final(self).wf(),
    {
        self.active.set(slot, false);
        self.produced = Ghost(self.produced@.push(out));
        self.buffer.push_back(out);
        assert(old(self).wf() ==> self.handed@ + self.buffer@ =~= self.produced@);
    }

    /// The running `slot` produced `out` and keeps running: `out` waits behind the
    /// outputs already buffered.
    pub fn produce(&mut self, slot: usize, out: O)
        requires
            slot < old(self).active@.len(),
            old(self).active@[slot as int],
        ensures
            final(self).active@ == old(self).active@,
            final(self).buffer@ == old(self).buffer@.push(out),
            final(self).produced@ == old(self).produced@.push(out),
            final(self).handed == old(self).handed,
            old(self).wf() ==> final(self).wf(),
    {
        self.produced = Ghost(self.produced@.push(out));
        self.buffer.push_back(out);
        assert(old(self).wf() ==> self.handed@ + self.buffer@ =~= self.produced@);
    }

    /// The running `slot` ended without an output: it is never polled again.
    pub fn end(&mut self, slot: usize)
        requires
            slot < old(self).active@.len(),
            old(self).active@[slot as int],
        ensures
            final(self).active@ == old(self).active@.update(slot as int, false),
            final(self).buffer@ == old(self).buffer@,
            final(self).produced == old(self).produced,
            final(self).handed == old(self).handed,
    {
        self.active.set(slot, false);
    }

    /// How this poll of the group ends: the oldest buffered output goes out, one per
    /// poll; with none buffered the group has finished when no slot runs, and is
    /// pending otherwise.
    pub fn next_event(&mut self) -> (e: GroupPoll<O>)
        ensures
            old(self).active@.len() == 0 && old(self).buffer@.len() == 0 ==> e is Finished,
            old(self).buffer@.len() > 0 ==> e == GroupPoll::Yield(old(self).buffer@[0])
                && final(self).buffer@ == old(self).buffer@.drop_first()
                && final(self).handed@ == old(self).handed@.push(old(self).buffer@[0]),
            old(self).buffer@.len() == 0 ==> (e is Finished <==> none_active(old(self).active@)),
            e is Finished || e is Pending ==> final(self).buffer@ == old(self).buffer@
                && final(self).handed == old(self).handed,
            final(self).active == old(self).active,
            final(self).produced == old(self).produced,
            old(self).wf() ==> final(self).wf(),
            old(self).wf() && e is Finished ==> final(self).handed@ == final(self).produced@,
    {
        match self.buffer.pop_front() {
            Some(out) => {
                self.handed = Ghost(self.handed@.push(out));
                proof {
                    assert(self.buffer@ =~= old(self).buffer@.drop_first());
                    assert(old(self).wf() ==> self.handed@ + self.buffer@ =~= self.produced@) by {
                        if old(self).wf() {
                            assert(old(self).buffer@ =~= seq![old(self).buffer@[0]] + self.buffer@);
                            assert(old(self).handed@ + old(self).buffer@
                                =~= old(self).handed@.push(old(self).buffer@[0]) + self.buffer@);
                        }
                    }
                }
                return GroupPoll::Yield(out);
            },
            None => {},
        }
        proof {
            assert(old(self).wf() ==> self.handed@ =~= self.produced@);
        }
        let mut i: usize = 0;
        while i < self.active.len()
            invariant
                i <= self.active@.len(),
                forall|j: int| 0 <= j < i ==> !self.active@[j],
                self.active == old(self).active,
                self.buffer@ == old(self).buffer@,
                self.produced == old(self).produced,
                self.handed == old(self).handed,
                old(self).buffer@.len() == 0,
            decreases self.active@.len() - i,
        {
            if self.active[i] {
                return GroupPoll::Pending;
            }
            i = i + 1;
        }
        GroupPoll::Finished
    }
}

/// A group hands out every output exactly once, in the order produced, however
/// many become ready in one poll: at any point the outputs handed out are the
/// first ones produced, the rest wait in production order, and once the group
/// has handed out everything it waits for nothing.
pub proof fn lemma_group_hands_out_in_order<O>(q: GroupQueue<O>)
    requires
        q.wf(),
    ensures
        q.handed@.len() + q.buffer@.len() == q.produced@.len(),
        q.produced@.take(q.handed@.len() as int) == q.handed@,
        q.produced@.skip(q.handed@.len() as int) == q.buffer@,
        q.buffer@.len() == 0 ==> q.handed@ == q.produced@,
{
    assert(q.produced@.take(q.handed@.len() as int) =~= q.handed@);
    assert(q.produced@.skip(q.handed@.len() as int) =~= q.buffer@);
    assert(q.buffer@.len() == 0 ==> q.handed@ =~= q.produced@);
}

/// A repaint is owed on a terminal whenever something changed and the screen
/// holds or is to hold a row: in particular after rows completed, with none left
/// running, so that their lines are cleared. Nothing is drawn off a terminal, with
/// nothing changed, or with nothing drawn before and nothing to draw.
pub proof fn lemma_repaint_owed(is_tty: bool, dirty: bool, active: nat, rendered: nat)
    ensures
        is_tty && dirty && rendered > 0 ==> should_repaint(is_tty, dirty, active, rendered),
        is_tty && dirty && active > 0 ==> should_repaint(is_tty, dirty, active, rendered),
        !is_tty || !dirty ==> !should_repaint(is_tty, dirty, active, rendered),
        active == 0 && rendered == 0 ==> !should_repaint(is_tty, dirty, active, rendered),
{
}

proof fn lemma_decimal_no_newline(n: nat)
    ensures
        forall|i: int| 0 <= i < decimal(n).len() ==> #[trigger] decimal(n)[i] != '\n',
    decreases n,
{
    if n >= 10 {
        lemma_decimal_no_newline(n / 10);
        assert forall|i: int| 0 <= i < decimal(n).len() implies #[trigger] decimal(n)[i] != '\n' by {
            if i < decimal(n / 10).len() {
                assert(decimal(n)[i] == decimal(n / 10)[i]);
            }
        }
    }
}

proof fn lemma_rows_text_lines(rows: Seq<Seq<char>>)
    requires
        forall|i: int| 0 <= i < rows.len() ==> newlines(#[trigger] rows[i]) == 0,
    ensures
        newlines(rows_text(rows)) == rows.len(),
    decreases rows.len(),
{
    if rows.len() > 0 {
        let init = rows.drop_last();
        lemma_rows_text_lines(init);
        let c = clear_line_seq();
        assert(c =~= seq!['\x1b', '[', '2', 'K', '\x1b', '[', '1', 'G']);
        lemma_no_newline(c);
        assert(newlines(rows[rows.len() - 1]) == 0);
        lemma_newlines_concat(rows_text(init), c);
        lemma_newlines_concat(rows_text(init) + c, rows.last());
        lemma_newlines_concat(rows_text(init) + c + rows.last(), seq!['\n']);
        assert(newlines(seq!['\n']) == 1) by {
            assert(seq!['\n'].drop_last() =~= Seq::<char>::empty());
            assert(newlines(Seq::<char>::empty()) == 0);
        }
    }
}

proof fn lemma_cleared_lines_count(n: nat)
    ensures
        newlines(cleared_lines(n)) == n,
    decreases n,
{
    if n > 0 {
        lemma_cleared_lines_count((n - 1) as nat);
        let c = clear_line_seq();
        assert(c =~= seq!['\x1b', '[', '2', 'K', '\x1b', '[', '1', 'G']);
        lemma_no_newline(c);
        lemma_newlines_concat(cleared_lines((n - 1) as nat), c);
        lemma_newlines_concat(cleared_lines((n - 1) as nat) + c, seq!['\n']);
        assert(newlines(seq!['\n']) == 1) by {
            assert(seq!['\n'].drop_last() =~= Seq::<char>::empty());
            assert(newlines(Seq::<char>::empty()) == 0);
        }
    }
}

/// A repaint frame ends as many lines as there are on screen, the larger of the
/// rows drawn before and the rows drawn now: one per active row, and one cleared
/// line for each row of the previous frame that is gone (rows that completed);
/// and it ends by moving the cursor back up over all of them, so that the next
/// frame starts at the first row again.
pub proof fn lemma_repaint_frame_lines(rows: Seq<Seq<char>>, rendered: nat)
    requires
        forall|i: int| 0 <= i < rows.len() ==> newlines(#[trigger] rows[i]) == 0,
    ensures
        newlines(repaint_text(rows, rendered)) == if rendered > rows.len() { rendered } else { rows.len() },
        rows.len() + stale_lines(rendered, rows.len()) > 0 ==> {
            let up = move_up_seq((rows.len() + stale_lines(rendered, rows.len())) as nat);
            let f = repaint_text(rows, rendered);
            &&& f.len() >= up.len()
            &&& f.subrange(f.len() - up.len(), f.len() as int) == up
        },
{
    let stale = stale_lines(rendered, rows.len());
    let total = (rows.len() + stale) as nat;
    let h = hide_cursor_seq();
    lemma_no_newline(h);
    lemma_rows_text_lines(rows);
    lemma_cleared_lines_count(stale);
    let body = h + rows_text(rows) + cleared_lines(stale);
    lemma_newlines_concat(h, rows_text(rows));
    lemma_newlines_concat(h + rows_text(rows), cleared_lines(stale));
    let tail = if total > 0 { move_up_seq(total) } else { Seq::empty() };
    if total > 0 {
        lemma_decimal_no_newline(total);
        assert forall|i: int| 0 <= i < tail.len() implies tail[i] != '\n' by {
            if 2 <= i < tail.len() - 1 {
                assert(tail[i] == decimal(total)[i - 2]);
            }
        }
    }
    lemma_no_newline(tail);
    lemma_newlines_concat(body, tail);
    assert(repaint_text(rows, rendered) == body + tail);
    if total > 0 {
        let f = body + tail;
        assert(f.subrange(f.len() - tail.len(), f.len() as int) =~= tail);
    }
}

/// Every line the previous frame drew is accounted for by the next repaint: it is
/// either redrawn as a row or cleared, and the cursor moves back up over exactly
/// the lines the repaint wrote, so the next frame starts at the first row again.
pub proof fn lemma_repaint_covers_previous_frame(rendered: nat, active: nat)
    ensures
        active + stale_lines(rendered, active) >= rendered,
        active + stale_lines(rendered, active) == if rendered > active { rendered } else { active },
{
}

} // verus!

//! Progress state for streams.
//!
//! [`ProgressStream`] derives progress from a fraction function of each item and
//! its zero-based index, [`ProgressBytesStream`] from a count of bytes, and
//! [`ProgressCountStream`] from the number of items against a known total.
//! Polling the inner stream is the caller's part; after each poll the caller
//! reports what happened and the functions here update the row and decide
//! whether to render, clear or leave the line alone.

use vstd::prelude::*;

use crate::future::StepAction;
use crate::progress::Progress;
use crate::state::{bytes_after, bytes_ratio, capped, lemma_bytes_are_capped_sum, saturating_add, sum_of, State};
use crate::theme::Theme;

verus! {

/// What polling the inner stream gave.
#[derive(Clone, Copy, PartialEq, Eq, Debug, Structural)]
pub enum Polled {
    /// An item.
    Item,
    /// The end of the stream.
    Finished,
    /// Nothing yet.
    Waiting,
}

/// After polling a stream: redraw for every item, clear at the end, and while
/// waiting redraw only when something changed (such as a spinner tick).
pub open spec fn stream_step_spec(polled: Polled, dirty: bool) -> StepAction {
    match polled {
        Polled::Item => StepAction::Render,
        Polled::Finished => StepAction::Clear,
        Polled::Waiting => if dirty { StepAction::Render } else { StepAction::Idle },
    }
}

/// Decide what the row does after its stream was polled.
pub fn stream_step(polled: Polled, dirty: bool) -> (a: StepAction)
    ensures
        a == stream_step_spec(polled, dirty),
        polled == Polled::Finished ==> a == StepAction::Clear,
        polled == Polled::Item ==> a == StepAction::Render,
        polled == Polled::Waiting ==> (a == StepAction::Render) == dirty && (a == StepAction::Idle) == !dirty,
{
    match polled {
        Polled::Item => StepAction::Render,
        Polled::Finished => StepAction::Clear,
        Polled::Waiting => if dirty { StepAction::Render } else { StepAction::Idle },
    }
}

/// A stream's row is cleared once the stream has ended, whatever else changed in
/// the same poll; every item redraws it; while waiting it is redrawn exactly when
/// something changed, and never cleared.
pub proof fn lemma_finished_stream_is_cleared(polled: Polled, dirty: bool)
    ensures
        polled == Polled::Finished ==> stream_step_spec(polled, dirty) == StepAction::Clear,
        stream_step_spec(polled, dirty) == StepAction::Clear <==> polled == Polled::Finished,
        polled == Polled::Item ==> stream_step_spec(polled, dirty) == StepAction::Render,
        polled == Polled::Waiting ==> (stream_step_spec(polled, dirty) == StepAction::Render <==> dirty),
{
}

/// A stream wrapped to track progress derived from a fraction function.
pub struct ProgressStream<S, F, M, G, C> {
    /// The wrapped stream.
    pub inner: S,
    /// Maps the zero-based item index and the item to a fraction.
    pub fraction_fn: F,
    /// Each value replaces the displayed message.
    pub messages: M,
    /// The progress core.
    pub core: Progress<G, C>,
    /// Index of the next item.
    pub current: usize,
}

impl<S, F, M, G, C> ProgressStream<S, F, M, G, C> {
    /// Wrap `inner` with a fresh core, starting at item index zero.
    pub fn new(inner: S, fraction_fn: F, messages: M) -> (ps: Self)
        ensures
            ps.inner == inner,
            ps.fraction_fn == fraction_fn,
            ps.messages == messages,
            ps.core == Progress::<G, C>::new_spec(),
            ps.current == 0,
    {
        ProgressStream { inner, fraction_fn, messages, core: Progress::new(), current: 0 }
    }

    /// The index to hand the fraction function for the item just yielded; the next
    /// item gets the following index.
    pub fn next_index(&mut self) -> (i: usize)
        requires
            old(self).current < usize::MAX,
        ensures
            i == old(self).current,
            final(self).current == old(self).current + 1,
            final(self).core == old(self).core,
    {
        let i = self.current;
        self.current = self.current + 1;
        i
    }

    /// Set the static label.
    pub fn with_label(self, label: String) -> (ps: Self)
        ensures
            ps == (ProgressStream { core: self.core.labeled(label), ..self }),
    {
        let mut core = self.core;
        core.set_label(label);
        ProgressStream { core, ..self }
    }

    /// Show the elapsed time.
    pub fn with_elapsed_time(self) -> (ps: Self)
        ensures
            ps == (ProgressStream { core: self.core.timed(), ..self }),
    {
        let mut core = self.core;
        core.enable_elapsed_time();
        ProgressStream { core, ..self }
    }

    /// Render this row with `theme`.
    pub fn with_theme(self, theme: Theme<G, C>) -> (ps: Self)
        ensures
            ps == (ProgressStream { core: self.core.themed(theme), ..self }),
    {
        let mut core = self.core;
        core.set_theme(theme);
        ProgressStream { core, ..self }
    }

    /// Style this row's spinner with `style`.
    pub fn with_spinner_style(self, style: owo_colors::Style) -> (ps: Self)
        ensures
            ps == (ProgressStream { core: self.core.spinner_styled(style), ..self }),
    {
        let mut core = self.core;
        core.set_spinner_style(style);
        ProgressStream { core, ..self }
    }

    /// Style this row's label with `style`.
    pub fn with_annotation_style(self, style: owo_colors::Style) -> (ps: Self)
        ensures
            ps == (ProgressStream { core: self.core.annotation_styled(style), ..self }),
    {
        let mut core = self.core;
        core.set_annotation_style(style);
        ProgressStream { core, ..self }
    }

    /// Replace the message stream.
    pub fn with_messages<S2>(self, messages: S2) -> (ps: ProgressStream<S, F, S2, G, C>)
        ensures
            ps.messages == messages,
            ps.core == self.core,
            ps.current == self.current,
            ps.inner == self.inner,
            ps.fraction_fn == self.fraction_fn,
    {
        ProgressStream {
            inner: self.inner,
            fraction_fn: self.fraction_fn,
            messages,
            core: self.core,
            current: self.current,
        }
    }
}

/// A stream wrapped to track cumulative bytes and (optionally) a total.
pub struct ProgressBytesStream<S, F, M, G, C> {
    /// The wrapped stream.
    pub inner: S,
    /// Maps each item to the number of bytes it carries.
    pub bytes_fn: F,
    /// Each value replaces the displayed message.
    pub messages: M,
    /// The progress core.
    pub core: Progress<G, C>,
    /// The byte counts of the items recorded so far, in order.
    pub recorded: Ghost<Seq<u64>>,
}

impl<S, F, M, G, C> ProgressBytesStream<S, F, M, G, C> {
    /// The byte counter holds what recording `recorded` in turn from zero gives.
    pub open spec fn counts_recorded(&self) -> bool {
        self.core.state.bytes_done == bytes_after(0, self.recorded@)
    }

    /// Wrap `inner` with a fresh core, nothing recorded.
    pub fn new(inner: S, bytes_fn: F, messages: M) -> (ps: Self)
        ensures
            ps.inner == inner,
            ps.bytes_fn == bytes_fn,
            ps.messages == messages,
            ps.core == Progress::<G, C>::new_spec(),
            ps.recorded@.len() == 0,
            ps.counts_recorded(),
    {
        ProgressBytesStream { inner, bytes_fn, messages, core: Progress::new(), recorded: Ghost(Seq::empty()) }
    }

    /// Count the `delta` bytes of the item just yielded. Returns the progress ratio
    /// `(done, total)` when a positive total is known. Over the items recorded so
    /// far the counter is their sum, capped at the largest `u64`.
    pub fn record(&mut self, delta: u64) -> (r: Option<(u64, u64)>)
        ensures
            final(self).core.state.bytes_done == saturating_add(old(self).core.state.bytes_done as nat, delta as nat),
            final(self).core == (Progress {
                state: State { bytes_done: final(self).core.state.bytes_done, ..old(self).core.state },
                ..old(self).core
            }),
            final(self).recorded@ == old(self).recorded@.push(delta),
            old(self).counts_recorded() ==> final(self).counts_recorded()
                && final(self).core.state.bytes_done == capped(sum_of(final(self).recorded@)),
            final(self).inner == old(self).inner,
            final(self).bytes_fn == old(self).bytes_fn,
            final(self).messages == old(self).messages,
            r == bytes_ratio(final(self).core.state.bytes_done, final(self).core.state.bytes_total),
    {
        let r = self.core.state.add_bytes(delta);
        self.recorded = Ghost(self.recorded@.push(delta));
        proof {
            assert(self.recorded@.drop_last() =~= old(self).recorded@);
            lemma_bytes_are_capped_sum(self.recorded@);
        }
        r
    }

    /// Set the static label.
    pub fn with_label(self, label: String) -> (ps: Self)
        ensures
            ps == (ProgressBytesStream { core: self.core.labeled(label), ..self }),
    {
        let mut core = self.core;
        core.set_label(label);
        ProgressBytesStream { core, ..self }
    }

    /// Show the elapsed time.
    pub fn with_elapsed_time(self) -> (ps: Self)
        ensures
            ps == (ProgressBytesStream { core: self.core.timed(), ..self }),
    {
        let mut core = self.core;
        core.enable_elapsed_time();
        ProgressBytesStream { core, ..self }
    }

    /// Record the total number of bytes expected, enabling the bar and the ETA.
    pub fn with_len(self, total: u64) -> (ps: Self)
        ensures
            ps == (ProgressBytesStream { core: self.core.with_total(total), ..self }),
    {
        let mut core = self.core;
        core.state.set_bytes_total(total);
        ProgressBytesStream { core, ..self }
    }

    /// Render this row with `theme`.
    pub fn with_theme(self, theme: Theme<G, C>) -> (ps: Self)
        ensures
            ps == (ProgressBytesStream { core: self.core.themed(theme), ..self }),
    {
        let mut core = self.core;
        core.set_theme(theme);
        ProgressBytesStream { core, ..self }
    }

    /// Style this row's spinner with `style`.
    pub fn with_spinner_style(self, style: owo_colors::Style) -> (ps: Self)
        ensures
            ps == (ProgressBytesStream { core: self.core.spinner_styled(style), ..self }),
    {
        let mut core = self.core;
        core.set_spinner_style(style);
        ProgressBytesStream { core, ..self }
    }

    /// Style this row's label with `style`.
    pub fn with_annotation_style(self, style: owo_colors::Style) -> (ps: Self)
        ensures
            ps == (ProgressBytesStream { core: self.core.annotation_styled(style), ..self }),
    {
        let mut core = self.core;
        core.set_annotation_style(style);
        ProgressBytesStream { core, ..self }
    }

    /// Replace the message stream.
    pub fn with_messages<S2>(self, messages: S2) -> (ps: ProgressBytesStream<S, F, S2, G, C>)
        ensures
            ps.messages == messages,
            ps.core == self.core,
            ps.inner == self.inner,
            ps.bytes_fn == self.bytes_fn,
            ps.recorded == self.recorded,
    {
        ProgressBytesStream { inner: self.inner, bytes_fn: self.bytes_fn, messages, core: self.core, recorded: self.recorded }
    }
}

/// A stream wrapped to count items and derive progress from a known total.
pub struct ProgressCountStream<S, M, G, C> {
    /// The wrapped stream.
    pub inner: S,
    /// Each value replaces the displayed message.
    pub messages: M,
    /// The progress core.
    pub core: Progress<G, C>,
    /// Items yielded so far.
    pub current: u64,
    /// Items expected, if known.
    pub total: Option<u64>,
}

/// The progress ratio after `current` of `total` items; absent without a positive
/// total.
pub open spec fn count_ratio(current: u64, total: Option<u64>) -> Option<(u64, u64)> {
    match total {
        Some(t) => if t > 0 { Some((current, t)) } else { None },
        None => None,
    }
}

impl<S, M, G, C> ProgressCountStream<S, M, G, C> {
    /// Wrap `inner`, seeding the total from the upper bound of its size hint.
    pub fn new(inner: S, messages: M, size_hint_upper: Option<usize>) -> (ps: Self)
        ensures
            ps.inner == inner,
            ps.messages == messages,
            ps.core == Progress::<G, C>::new_spec(),
            ps.current == 0,
            ps.total == match size_hint_upper { Some(n) => Some(n as u64), None => None },
    {
        let total = match size_hint_upper {
            Some(n) => Some(n as u64),
            None => None,
        };
        ProgressCountStream { inner, messages, core: Progress::new(), current: 0, total }
    }

    /// Count the item just yielded. Returns the progress ratio `(count, total)`
    /// when a positive total is known.
    pub fn record_item(&mut self) -> (r: Option<(u64, u64)>)
        requires
            old(self).current < u64::MAX,
        ensures
            final(self).current == old(self).current + 1,
            final(self).total == old(self).total,
            final(self).core == old(self).core,
            r == count_ratio(final(self).current, final(self).total),
    {
        self.current = self.current + 1;
        match self.total {
            Some(t) => if t > 0 { Some((self.current, t)) } else { None },
            None => None,
        }
    }

    /// Set the static label.
    pub fn with_label(self, label: String) -> (ps: Self)
        ensures
            ps == (ProgressCountStream { core: self.core.labeled(label), ..self }),
    {
        let mut core = self.core;
        core.set_label(label);
        ProgressCountStream { core, ..self }
    }

    /// Show the elapsed time.
    pub fn with_elapsed_time(self) -> (ps: Self)
        ensures
            ps == (ProgressCountStream { core: self.core.timed(), ..self }),
    {
        let mut core = self.core;
        core.enable_elapsed_time();
        ProgressCountStream { core, ..self }
    }

    /// Record the total number of items expected, overriding the size hint.
    pub fn with_len(self, total: u64) -> (ps: Self)
        ensures
            ps == (ProgressCountStream { total: Some(total), ..self }),
    {
        ProgressCountStream { total: Some(total), ..self }
    }

    /// Render this row with `theme`.
    pub fn with_theme(self, theme: Theme<G, C>) -> (ps: Self)
        ensures
            ps == (ProgressCountStream { core: self.core.themed(theme), ..self }),
    {
        let mut core = self.core;
        core.set_theme(theme);
        ProgressCountStream { core, ..self }
    }

    /// Style this row's spinner with `style`.
    pub fn with_spinner_style(self, style: owo_colors::Style) -> (ps: Self)
        ensures
            ps == (ProgressCountStream { core: self.core.spinner_styled(style), ..self }),
    {
        let mut core = self.core;
        core.set_spinner_style(style);
        ProgressCountStream { core, ..self }
    }

    /// Style this row's label with `style`.
    pub fn with_annotation_style(self, style: owo_colors::Style) -> (ps: Self)
        ensures
            ps == (ProgressCountStream { core: self.core.annotation_styled(style), ..self }),
    {
        let mut core = self.core;
        core.set_annotation_style(style);
        ProgressCountStream { core, ..self }
    }

    /// Replace the message stream.
    pub fn with_messages<S2>(self, messages: S2) -> (ps: ProgressCountStream<S, S2, G, C>)
        ensures
            ps.messages == messages,
            ps.core == self.core,
            ps.current == self.current,
            ps.total == self.total,
            ps.inner == self.inner,
    {
        ProgressCountStream {
            inner: self.inner,
            messages,
            core: self.core,
            current: self.current,
            total: self.total,
        }
    }
}

/// The indices a fraction function is handed over `n` items when the first item
/// gets index `start`, in order.
pub open spec fn indices_handed(start: nat, n: nat) -> Seq<nat>
    decreases n,
{
    if n == 0 { Seq::empty() } else { indices_handed(start, (n - 1) as nat).push((start + n - 1) as nat) }
}

/// Item indices are zero-based and handed out once per item: over the first `n`
/// items of a fresh stream the fraction function sees `0, 1, ..., n - 1`.
pub proof fn lemma_item_indices_count_up(n: nat)
    ensures
        indices_handed(0, n).len() == n,
        forall|i: int| 0 <= i < n ==> #[trigger] indices_handed(0, n)[i] == i,
    decreases n,
{
    if n > 0 {
        lemma_item_indices_count_up((n - 1) as nat);
        assert forall|i: int| 0 <= i < n implies #[trigger] indices_handed(0, n)[i] == i by {
            if i < n - 1 {
                assert(indices_handed(0, n)[i] == indices_handed(0, (n - 1) as nat)[i]);
            }
        }
    }
}

} // verus!

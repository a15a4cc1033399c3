//! Progress state for futures.
//!
//! A [`ProgressFuture`] carries a wrapped future together with its message and
//! progress streams and the progress core; a [`Join`] carries many futures and
//! counts their completions. Polling them is the caller's part: after each poll
//! the caller reports what happened, and the functions here decide what the row
//! shows and whether to render, clear, or leave the line alone.

pub mod monitored;

use vstd::multiset::Multiset;
use vstd::prelude::*;

use crate::progress::Progress;
use crate::theme::Theme;

verus! {

/// What a standalone row does after one poll.
#[derive(Clone, Copy, PartialEq, Eq, Debug, Structural)]
pub enum StepAction {
    /// Redraw the line.
    Render,
    /// The work is done: clear the line.
    Clear,
    /// Leave the line as it is.
    Idle,
}

/// After polling a future: clear when it completed, redraw when something changed
/// while it is still pending, otherwise leave the line alone.
pub open spec fn future_step_spec(ready: bool, dirty: bool) -> StepAction {
    if ready { StepAction::Clear } else if dirty { StepAction::Render } else { StepAction::Idle }
}

/// Decide what the row does after its future was polled.
pub fn future_step(ready: bool, dirty: bool) -> (a: StepAction)
    ensures
        a == future_step_spec(ready, dirty),
        ready ==> a == StepAction::Clear,
        !ready ==> (a == StepAction::Render) == dirty,
        !ready && !dirty ==> a == StepAction::Idle,
{
    if ready { StepAction::Clear } else if dirty { StepAction::Render } else { StepAction::Idle }
}

/// A finished future's row is always cleared, whatever else changed in the same
/// poll; only a pending future's row is redrawn, and only when something
/// changed; a pending row with no change is left alone.
pub proof fn lemma_finished_future_is_cleared(ready: bool, dirty: bool)
    ensures
        ready ==> future_step_spec(ready, dirty) == StepAction::Clear,
        future_step_spec(ready, dirty) == StepAction::Render <==> !ready && dirty,
        future_step_spec(ready, dirty) == StepAction::Idle <==> !ready && !dirty,
{
}

/// A future wrapped with progress state: the future `inner`, a stream of messages
/// `messages`, a stream of progress fractions `progress`, and the core.
pub struct ProgressFuture<F, M, P, G, C> {
    /// The wrapped future.
    pub inner: F,
    /// Each value replaces the displayed message.
    pub messages: M,
    /// Each value sets the progress fraction.
    pub progress: P,
    /// The progress core.
    pub core: Progress<G, C>,
}

impl<F, M, P, G, C> ProgressFuture<F, M, P, G, C> {
    /// Wrap `inner` with the given message and progress streams and a fresh core.
    pub fn new(inner: F, messages: M, progress: P) -> (pf: Self)
        ensures
            pf.inner == inner,
            pf.messages == messages,
            pf.progress == progress,
            pf.core == Progress::<G, C>::new_spec(),
    {
        ProgressFuture { inner, messages, progress, core: Progress::new() }
    }

    /// Set the static label.
    pub fn with_label(self, label: String) -> (pf: Self)
        ensures
            pf == (ProgressFuture { core: self.core.labeled(label), ..self }),
    {
        let mut core = self.core;
        core.set_label(label);
        ProgressFuture { inner: self.inner, messages: self.messages, progress: self.progress, core }
    }

    /// Replace the message stream.
    pub fn with_messages<S>(self, messages: S) -> (pf: ProgressFuture<F, S, P, G, C>)
        ensures
            pf.messages == messages,
            pf.inner == self.inner,
            pf.progress == self.progress,
            pf.core == self.core,
    {
        ProgressFuture { inner: self.inner, messages, progress: self.progress, core: self.core }
    }

    /// Show the elapsed time.
    pub fn with_elapsed_time(self) -> (pf: Self)
        ensures
            pf == (ProgressFuture { core: self.core.timed(), ..self }),
    {
        let mut core = self.core;
        core.enable_elapsed_time();
        ProgressFuture { inner: self.inner, messages: self.messages, progress: self.progress, core }
    }

    /// Replace the progress stream.
    pub fn with_progress<S>(self, progress: S) -> (pf: ProgressFuture<F, M, S, G, C>)
        ensures
            pf.progress == progress,
            pf.inner == self.inner,
            pf.messages == self.messages,
            pf.core == self.core,
    {
        ProgressFuture { inner: self.inner, messages: self.messages, progress, core: self.core }
    }

    /// Render this row with `theme`.
    pub fn with_theme(self, theme: Theme<G, C>) -> (pf: Self)
        ensures
            pf == (ProgressFuture { core: self.core.themed(theme), ..self }),
    {
        let mut core = self.core;
        core.set_theme(theme);
        ProgressFuture { inner: self.inner, messages: self.messages, progress: self.progress, core }
    }

    /// Style this row's spinner with `style`.
    pub fn with_spinner_style(self, style: owo_colors::Style) -> (pf: Self)
        ensures
            pf == (ProgressFuture { core: self.core.spinner_styled(style), ..self }),
    {
        let mut core = self.core;
        core.set_spinner_style(style);
        ProgressFuture { inner: self.inner, messages: self.messages, progress: self.progress, core }
    }

    /// Style this row's label with `style`.
    pub fn with_annotation_style(self, style: owo_colors::Style) -> (pf: Self)
        ensures
            pf == (ProgressFuture { core: self.core.annotation_styled(style), ..self }),
    {
        let mut core = self.core;
        core.set_annotation_style(style);
        ProgressFuture { inner: self.inner, messages: self.messages, progress: self.progress, core }
    }
}

/// N futures collapsed into a single row. The row's progress is the completion
/// ratio `completed / total`; results are collected in completion order.
pub struct Join<F, O, M, G, C> {
    /// The futures still running.
    pub futs: Vec<F>,
    /// Outputs of the completed futures, in completion order.
    pub results: Vec<O>,
    /// How many futures have completed.
    pub completed: usize,
    /// How many futures there were.
    pub total: usize,
    /// Each value replaces the displayed message.
    pub messages: M,
    /// The progress core.
    pub core: Progress<G, C>,
    /// The futures joined, as they were handed in.
    pub joined: Ghost<Seq<F>>,
    /// The futures that completed, in completion order; the one at position `k`
    /// gave the output at position `k` of `results`.
    pub finished: Ghost<Seq<F>>,
}

/// The completion ratio of `completed` out of `total` futures; absent for none.
pub open spec fn completion_ratio(completed: usize, total: usize) -> Option<(usize, usize)> {
    if total == 0 { None } else { Some((completed, total)) }
}

/// Construct a [`Join`] of `futs` with the message stream `messages`.
pub fn join<F, O, M, G, C>(futs: Vec<F>, messages: M) -> (j: Join<F, O, M, G, C>)
    ensures
        j.futs@ == futs@,
        j.results@.len() == 0,
        j.completed == 0,
        j.total == futs@.len(),
        j.messages == messages,
        j.joined@ == futs@,
        j.finished@.len() == 0,
        j.wf(),
{
    Join::new(futs, messages)
}

impl<F, O, M, G, C> Join<F, O, M, G, C> {
    /// Every future joined is either still running or has completed, exactly
    /// once, and each completed one has its output collected.
    pub open spec fn wf(&self) -> bool {
        &&& self.completed + self.futs@.len() == self.total
        &&& self.results@.len() == self.completed
        &&& self.finished@.len() == self.completed
        &&& self.futs@.to_multiset().add(self.finished@.to_multiset()) == self.joined@.to_multiset()
        &&& self.joined@.len() == self.total
    }

    /// A join of `futs` with none completed.
    pub fn new(futs: Vec<F>, messages: M) -> (j: Self)
        ensures
            j.futs@ == futs@,
            j.results@.len() == 0,
            j.completed == 0,
            j.total == futs@.len(),
            j.messages == messages,
            j.core == Progress::<G, C>::new_spec(),
            j.joined@ == futs@,
            j.finished@.len() == 0,
            j.wf(),
    {
        broadcast use vstd::seq_lib::group_to_multiset_ensures, vstd::multiset::group_multiset_axioms;

        let total = futs.len();
        let ghost joined = futs@;
        let j = Join {
            futs,
            results: Vec::new(),
            completed: 0,
            total,
            messages,
            core: Progress::new(),
            joined: Ghost(joined),
            finished: Ghost(Seq::empty()),
        };
        assert(j.finished@.to_multiset() =~= Multiset::empty());
        assert(j.futs@.to_multiset().add(j.finished@.to_multiset()) =~= j.joined@.to_multiset());
        j
    }

    /// The row's progress: the completion ratio, absent when there are no futures.
    pub fn progress(&self) -> (r: Option<(usize, usize)>)
        ensures
            r == completion_ratio(self.completed, self.total),
    {
        if self.total == 0 { None } else { Some((self.completed, self.total)) }
    }

    /// Record that the running future at `i` completed with `out`: it leaves the
    /// running set (its place taken by the last one), its output is appended to the
    /// results, and the completion count goes up by one. Returns the new ratio.
    pub fn complete(&mut self, i: usize, out: O) -> (r: Option<(usize, usize)>)
        requires
            old(self).wf(),
            i < old(self).futs@.len(),
        ensures
            final(self).wf(),
            final(self).futs@ == swap_remove(old(self).futs@, i as int),
            final(self).results@ == old(self).results@.push(out),
            final(self).finished@ == old(self).finished@.push(old(self).futs@[i as int]),
            final(self).joined == old(self).joined,
            final(self).completed == old(self).completed + 1,
            final(self).total == old(self).total,
            final(self).core == old(self).core,
            final(self).messages == old(self).messages,
            r == completion_ratio(final(self).completed, final(self).total),
    {
        broadcast use vstd::seq_lib::group_to_multiset_ensures, vstd::multiset::group_multiset_axioms;

        let ghost before = self.futs@;
        let _done = self.futs.swap_remove(i);
        proof {
            assert(self.futs@ =~= swap_remove(before, i as int));
            lemma_swap_remove_multiset(before, i as int);
        }
        self.finished = Ghost(self.finished@.push(before[i as int]));
        self.results.push(out);
        self.completed = self.completed + 1;
        proof {
            let fm = old(self).finished@.to_multiset();
            assert(self.finished@.to_multiset() == fm.insert(before[i as int]));
            assert(self.futs@.to_multiset().add(self.finished@.to_multiset())
                =~= self.futs@.to_multiset().insert(before[i as int]).add(fm));
        }
        self.progress()
    }

    /// Whether every future has completed.
    pub fn is_done(&self) -> (d: bool)
        requires
            self.wf(),
        ensures
            d == (self.futs@.len() == 0),
            d ==> self.completed == self.total,
            d ==> self.finished@.to_multiset() == self.joined@.to_multiset(),
    {
        broadcast use vstd::seq_lib::group_to_multiset_ensures, vstd::multiset::group_multiset_axioms;

        let d = self.futs.len() == 0;
        proof {
            if d {
                assert(self.futs@.to_multiset() =~= Multiset::empty());
                assert(self.futs@.to_multiset().add(self.finished@.to_multiset()) =~= self.finished@.to_multiset());
            }
        }
        d
    }

    /// Hand out the collected outputs, leaving none behind.
    pub fn take_results(&mut self) -> (rs: Vec<O>)
        ensures
            rs@ == old(self).results@,
            final(self).results@.len() == 0,
            final(self).futs == old(self).futs,
            final(self).completed == old(self).completed,
            final(self).total == old(self).total,
            final(self).core == old(self).core,
            final(self).messages == old(self).messages,
            final(self).joined == old(self).joined,
            final(self).finished == old(self).finished,
    {
        let mut rs: Vec<O> = Vec::new();
        std::mem::swap(&mut rs, &mut self.results);
        rs
    }

    /// Render this row with `theme`.
    pub fn with_theme(self, theme: Theme<G, C>) -> (j: Self)
        ensures
            j == (Join { core: self.core.themed(theme), ..self }),
    {
        let mut core = self.core;
        core.set_theme(theme);
        Join { core, ..self }
    }

    /// Style this row's spinner with `style`.
    pub fn with_spinner_style(self, style: owo_colors::Style) -> (j: Self)
        ensures
            j == (Join { core: self.core.spinner_styled(style), ..self }),
    {
        let mut core = self.core;
        core.set_spinner_style(style);
        Join { core, ..self }
    }

    /// Style this row's label with `style`.
    pub fn with_annotation_style(self, style: owo_colors::Style) -> (j: Self)
        ensures
            j == (Join { core: self.core.annotation_styled(style), ..self }),
    {
        let mut core = self.core;
        core.set_annotation_style(style);
        Join { core, ..self }
    }

    /// Set the static label.
    pub fn with_label(self, label: String) -> (j: Self)
        ensures
            j == (Join { core: self.core.labeled(label), ..self }),
    {
        let mut core = self.core;
        core.set_label(label);
        Join { core, ..self }
    }

    /// Show the elapsed time.
    pub fn with_elapsed_time(self) -> (j: Self)
        ensures
            j == (Join { core: self.core.timed(), ..self }),
    {
        let mut core = self.core;
        core.enable_elapsed_time();
        Join { core, ..self }
    }

    /// Replace the message stream.
    pub fn with_messages<S>(self, messages: S) -> (j: Join<F, O, S, G, C>)
        ensures
            j.messages == messages,
            j.futs == self.futs,
            j.results == self.results,
            j.completed == self.completed,
            j.total == self.total,
            j.core == self.core,
            j.joined == self.joined,
            j.finished == self.finished,
    {
        Join {
            futs: self.futs,
            results: self.results,
            completed: self.completed,
            total: self.total,
            messages,
            core: self.core,
            joined: self.joined,
            finished: self.finished,
        }
    }
}

/// The running futures after the one at `i` completed: the last one takes its
/// place.
pub open spec fn swap_remove<F>(futs: Seq<F>, i: int) -> Seq<F> {
    futs.update(i, futs.last()).drop_last()
}

/// The futures still running after the completions `steps`, each the index of
/// the completed future among those running at the time, and its output.
pub open spec fn run_remaining<F, O>(futs: Seq<F>, steps: Seq<(int, O)>) -> Seq<F>
    decreases steps.len(),
{
    if steps.len() == 0 {
        futs
    } else {
        swap_remove(run_remaining(futs, steps.drop_last()), steps.last().0)
    }
}

/// The futures that completed in `steps`, in completion order.
pub open spec fn run_finished<F, O>(futs: Seq<F>, steps: Seq<(int, O)>) -> Seq<F>
    decreases steps.len(),
{
    if steps.len() == 0 {
        Seq::empty()
    } else {
        run_finished(futs, steps.drop_last()).push(run_remaining(futs, steps.drop_last())[steps.last().0])
    }
}

/// Every completion in `steps` names a future that was still running.
pub open spec fn run_valid<F, O>(futs: Seq<F>, steps: Seq<(int, O)>) -> bool
    decreases steps.len(),
{
    steps.len() == 0 || (run_valid(futs, steps.drop_last())
        && 0 <= steps.last().0 < run_remaining(futs, steps.drop_last()).len())
}

/// The outputs of `steps`, in completion order.
pub open spec fn run_outputs<O>(steps: Seq<(int, O)>) -> Seq<O> {
    steps.map_values(|s: (int, O)| s.1)
}

proof fn lemma_swap_remove_multiset<F>(futs: Seq<F>, i: int)
    requires
        0 <= i < futs.len(),
    ensures
        swap_remove(futs, i).to_multiset().insert(futs[i]) == futs.to_multiset(),
        swap_remove(futs, i).len() + 1 == futs.len(),
{
    broadcast use vstd::seq_lib::group_to_multiset_ensures, vstd::multiset::group_multiset_axioms;

    let u = futs.update(i, futs.last());
    assert(u == swap_remove(futs, i).push(u.last()));
    assert(u.last() == futs.last());
    assert(u.to_multiset() == futs.to_multiset().insert(futs.last()).remove(futs[i]));
    let ms = swap_remove(futs, i).to_multiset();
    let fm = futs.to_multiset();
    assert(futs.contains(futs[i]));
    assert(fm.count(futs[i]) > 0);
    assert forall|x: F| #[trigger] ms.insert(futs[i]).count(x) == fm.count(x) by {
        assert(ms.insert(futs.last()).count(x) == fm.insert(futs.last()).remove(futs[i]).count(x));
    }
    assert(ms.insert(futs[i]) =~= fm);
}

/// A join hands out every output exactly once, in completion order: whatever
/// order the futures complete in, each completion takes one running future out
/// (the ones taken out and the ones still running are together exactly the
/// futures joined), and the outputs are collected in the order they came. Once
/// none runs, every future joined has completed exactly once.
pub proof fn lemma_join_outputs_each_once<F, O>(futs: Seq<F>, steps: Seq<(int, O)>)
    requires
        run_valid(futs, steps),
    ensures
        run_remaining(futs, steps).len() + steps.len() == futs.len(),
        run_remaining(futs, steps).to_multiset().add(run_finished(futs, steps).to_multiset()) == futs.to_multiset(),
        run_finished(futs, steps).len() == steps.len(),
        run_outputs(steps).len() == steps.len(),
        forall|k: int| 0 <= k < steps.len() ==> #[trigger] run_outputs(steps)[k] == steps[k].1,
        run_remaining(futs, steps).len() == 0 ==> run_finished(futs, steps).to_multiset() == futs.to_multiset()
            && steps.len() == futs.len(),
    decreases steps.len(),
{
    broadcast use vstd::seq_lib::group_to_multiset_ensures, vstd::multiset::group_multiset_axioms;

    if steps.len() == 0 {
        assert(run_finished(futs, steps).to_multiset() =~= Multiset::empty());
        assert(futs.to_multiset().add(Multiset::empty()) =~= futs.to_multiset());
    } else {
        let init = steps.drop_last();
        lemma_join_outputs_each_once(futs, init);
        let rem = run_remaining(futs, init);
        let i = steps.last().0;
        lemma_swap_remove_multiset(rem, i);
        let fin = run_finished(futs, init);
        assert(run_finished(futs, steps) == fin.push(rem[i]));
        assert(run_remaining(futs, steps).to_multiset().add(run_finished(futs, steps).to_multiset())
            =~= rem.to_multiset().add(fin.to_multiset()));
    }
    if run_remaining(futs, steps).len() == 0 {
        assert(run_remaining(futs, steps).to_multiset() =~= Multiset::empty());
        assert(run_finished(futs, steps).to_multiset() =~= futs.to_multiset());
    }
}

/// A join is done exactly when every future has completed, and then its bar is
/// full: the ratio is `total / total` (absent for a join of nothing).
pub proof fn lemma_join_done_is_full<F, O, M, G, C>(j: Join<F, O, M, G, C>)
    requires
        j.wf(),
    ensures
        (j.futs@.len() == 0) == (j.completed == j.total),
        j.futs@.len() == 0 && j.total > 0 ==> completion_ratio(j.completed, j.total) == Some((j.total, j.total)),
        j.futs@.len() == 0 ==> j.results@.len() == j.total,
{
}

} // verus!

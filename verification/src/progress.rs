//! The progress core every adapter carries: its [`State`], its per-row theme and
//! style overrides, and the lifecycle of its standalone rendering.
//!
//! Standalone rendering starts out pending, becomes active on the first poll, and
//! is detached for good once a group takes over rendering the row.

use vstd::prelude::*;

use crate::state::State;
use crate::theme::Theme;

verus! {

/// Lifecycle of the standalone rendering.
#[derive(Clone, Copy, PartialEq, Eq, Debug, Structural)]
pub enum Phase {
    /// Constructed but not yet polled.
    Pending,
    /// Rendering standalone.
    Active,
    /// A group owns rendering for this row; nothing is rendered here.
    Detached,
}

/// Per-row dynamic state, theme and style overrides, and rendering lifecycle.
pub struct Progress<G, C> {
    /// The values shown on the row.
    pub state: State,
    /// Theme to render this row with, instead of the default.
    pub theme_override: Option<Theme<G, C>>,
    /// Spinner style for this row, instead of the default.
    pub spinner_style_override: Option<owo_colors::Style>,
    /// Label style for this row, instead of the default.
    pub annotation_style_override: Option<owo_colors::Style>,
    /// Where standalone rendering stands.
    pub phase: Phase,
}

/// Where standalone rendering stands after a poll that found it at `phase`: a
/// pending row becomes active, any other keeps its phase.
pub open spec fn phase_after_poll(phase: Phase) -> Phase {
    if phase == Phase::Pending { Phase::Active } else { phase }
}

/// Standalone rendering starts on the first poll and only then: after any poll the
/// row is no longer pending, so a second poll starts nothing; and a row handed to a
/// group stays detached however often it is polled.
pub proof fn lemma_rendering_starts_once(phase: Phase)
    ensures
        phase_after_poll(phase) != Phase::Pending,
        phase_after_poll(phase_after_poll(phase)) == phase_after_poll(phase),
        phase == Phase::Detached ==> phase_after_poll(phase) == Phase::Detached,
{
}

/// `p` and `q` agree on everything but the state.
pub open spec fn same_but_state<G, C>(p: Progress<G, C>, q: Progress<G, C>) -> bool {
    &&& p.theme_override == q.theme_override
    &&& p.spinner_style_override == q.spinner_style_override
    &&& p.annotation_style_override == q.annotation_style_override
    &&& p.phase == q.phase
}

impl<G, C> Progress<G, C> {
    /// The fresh core: empty state, no overrides, rendering pending.
    pub open spec fn new_spec() -> Progress<G, C> {
        Progress {
            state: State::new_spec(),
            theme_override: None,
            spinner_style_override: None,
            annotation_style_override: None,
            phase: Phase::Pending,
        }
    }

    /// This core with the label set to `label`.
    pub open spec fn labeled(self, label: String) -> Progress<G, C> {
        Progress { state: State { label: Some(label), ..self.state }, ..self }
    }

    /// This core with the message set to `message`.
    pub open spec fn messaged(self, message: String) -> Progress<G, C> {
        Progress { state: State { message: Some(message), ..self.state }, ..self }
    }

    /// This core showing the elapsed time.
    pub open spec fn timed(self) -> Progress<G, C> {
        Progress { state: State { with_elapsed_time: true, ..self.state }, ..self }
    }

    /// This core expecting `total` bytes.
    pub open spec fn with_total(self, total: u64) -> Progress<G, C> {
        Progress { state: State { bytes_total: Some(total), ..self.state }, ..self }
    }

    /// This core rendering with `theme`.
    pub open spec fn themed(self, theme: Theme<G, C>) -> Progress<G, C> {
        Progress { theme_override: Some(theme), ..self }
    }

    /// This core styling its spinner with `style`.
    pub open spec fn spinner_styled(self, style: owo_colors::Style) -> Progress<G, C> {
        Progress { spinner_style_override: Some(style), ..self }
    }

    /// This core styling its label with `style`.
    pub open spec fn annotation_styled(self, style: owo_colors::Style) -> Progress<G, C> {
        Progress { annotation_style_override: Some(style), ..self }
    }

    /// A fresh core: empty state, no overrides, rendering pending.
    pub fn new() -> (p: Progress<G, C>)
        ensures
            p == Progress::<G, C>::new_spec(),
    {
        Progress {
            state: State::new(),
            theme_override: None,
            spinner_style_override: None,
            annotation_style_override: None,
            phase: Phase::Pending,
        }
    }

    /// Set the label.
    pub fn set_label(&mut self, label: String)
        ensures
            *final(self) == old(self).labeled(label),
    {
        self.state.set_label(label);
    }

    /// Set the message.
    pub fn set_message(&mut self, message: String)
        ensures
            *final(self) == old(self).messaged(message),
    {
        self.state.set_message(message);
    }

    /// Show the elapsed time.
    pub fn enable_elapsed_time(&mut self)
        ensures
            *final(self) == old(self).timed(),
    {
        self.state.enable_elapsed_time();
    }

    /// Render this row with `theme`.
    pub fn set_theme(&mut self, theme: Theme<G, C>)
        ensures
            *final(self) == old(self).themed(theme),
    {
        self.theme_override = Some(theme);
    }

    /// Style this row's spinner with `style`.
    pub fn set_spinner_style(&mut self, style: owo_colors::Style)
        ensures
            *final(self) == old(self).spinner_styled(style),
    {
        self.spinner_style_override = Some(style);
    }

    /// Style this row's label with `style`.
    pub fn set_annotation_style(&mut self, style: owo_colors::Style)
        ensures
            *final(self) == old(self).annotation_styled(style),
    {
        self.annotation_style_override = Some(style);
    }

    /// Start standalone rendering on the first poll. Returns `true` exactly on the
    /// step from pending to active; a detached row stays detached.
    pub fn materialize(&mut self) -> (first: bool)
        ensures
            first == (old(self).phase == Phase::Pending),
            final(self).phase == phase_after_poll(old(self).phase),
            final(self).state == old(self).state,
            final(self).theme_override == old(self).theme_override,
            final(self).spinner_style_override == old(self).spinner_style_override,
            final(self).annotation_style_override == old(self).annotation_style_override,
    {
        if self.phase == Phase::Pending {
            self.phase = Phase::Active;
            true
        } else {
            false
        }
    }

    /// Hand rendering of this row to a group for good.
    pub fn detach_rendering(&mut self)
        ensures
            final(self).phase == Phase::Detached,
            final(self).state == old(self).state,
            final(self).theme_override == old(self).theme_override,
            final(self).spinner_style_override == old(self).spinner_style_override,
            final(self).annotation_style_override == old(self).annotation_style_override,
    {
        self.phase = Phase::Detached;
    }

    /// Whether this row renders itself.
    pub fn is_active(&self) -> (r: bool)
        ensures
            r == (self.phase == Phase::Active),
    {
        self.phase == Phase::Active
    }
}

} // verus!

//! Shared progress theme configuration.
//!
//! A [`Theme`] bundles a [`Spinner`] and a [`Bar`] together with an optional bar
//! width, a [`Layout`] and the [`Output`] stream, and is what every progress
//! adapter and group renders with.

use vstd::prelude::*;

use crate::bar::Bar;
use crate::layout::{default_segments, Layout};
use crate::spinner::{default_interval, styles, Frames, Spinner};
use crate::term::Output;

verus! {

/// Combined theme for progress display. `G` is the gradient type, `C` the type of
/// a custom segment renderer.
#[derive(Clone)]
pub struct Theme<G, C> {
    /// Spinner style to indicate activity; `None` renders no spinner segment.
    pub spinner: Option<Spinner>,
    /// Bar style to indicate progress; `None` renders no bar segment.
    pub bar: Option<Bar<G>>,
    /// Width of the progress bar in characters; derived from the terminal when unset.
    pub bar_width: Option<usize>,
    /// Ordering and formatting of the rendered progress line.
    pub layout: Layout<G, C>,
    /// Standard stream the rendered line is written to.
    pub output: Output,
}

/// The bar width used when none is set: the terminal's width less 20 columns,
/// kept within `10..=80`, or 40 when the terminal's width is unknown.
pub open spec fn auto_bar_width(terminal_columns: Option<u16>) -> nat {
    match terminal_columns {
        Some(w) => {
            let rest = if w >= 20 { (w - 20) as nat } else { 0 };
            if rest < 10 { 10 } else if rest > 80 { 80 } else { rest }
        },
        None => 40,
    }
}

impl<G, C> Theme<G, C> {
    /// An empty theme: no spinner, no bar, auto-detected bar width, the default
    /// layout, standard output.
    pub fn new() -> (t: Theme<G, C>)
        ensures
            t.spinner is None,
            t.bar is None,
            t.bar_width is None,
            t.layout.segments@ == default_segments::<G, C>(),
            t.layout.separator@ == seq![' '],
            t.output == Output::Stdout,
    {
        Theme { spinner: None, bar: None, bar_width: None, layout: Layout::default_layout(), output: Output::Stdout }
    }

    /// A theme that pairs `spinner` with `bar`.
    pub fn with(spinner: Spinner, bar: Bar<G>) -> (t: Theme<G, C>)
        ensures
            t.spinner == Some(spinner),
            t.bar == Some(bar),
            t.bar_width is None,
            t.layout.segments@ == default_segments::<G, C>(),
            t.layout.separator@ == seq![' '],
            t.output == Output::Stdout,
    {
        Theme::new().with_spinner(spinner).with_bar(bar)
    }

    /// Set the spinner used to indicate ongoing activity.
    pub fn with_spinner(self, spinner: Spinner) -> (t: Theme<G, C>)
        ensures
            t == (Theme { spinner: Some(spinner), ..self }),
    {
        Theme { spinner: Some(spinner), ..self }
    }

    /// Set the bar used to render fractional progress.
    pub fn with_bar(self, bar: Bar<G>) -> (t: Theme<G, C>)
        ensures
            t == (Theme { bar: Some(bar), ..self }),
    {
        Theme { bar: Some(bar), ..self }
    }

    /// Override the bar width in characters.
    pub fn with_bar_width(self, width: usize) -> (t: Theme<G, C>)
        ensures
            t == (Theme { bar_width: Some(width), ..self }),
    {
        Theme { bar_width: Some(width), ..self }
    }

    /// Set the layout controlling segment order, spacing and formatting.
    pub fn with_layout(self, layout: Layout<G, C>) -> (t: Theme<G, C>)
        ensures
            t == (Theme { layout, ..self }),
    {
        Theme { layout, ..self }
    }

    /// Select the standard stream the rendered line is written to.
    pub fn with_output(self, output: Output) -> (t: Theme<G, C>)
        ensures
            t == (Theme { output, ..self }),
    {
        Theme { output, ..self }
    }

    /// The bar width to render with: the width set on the theme, or else one derived
    /// from the terminal's width in columns (`None` when it cannot be detected).
    pub fn effective_bar_width(&self, terminal_columns: Option<u16>) -> (w: usize)
        ensures
            self.bar_width is Some ==> w == self.bar_width->0,
            self.bar_width is None ==> w == auto_bar_width(terminal_columns),
    {
        match self.bar_width {
            Some(w) => w,
            None => match terminal_columns {
                Some(cols) => {
                    let rest: usize = if cols >= 20 { (cols - 20) as usize } else { 0 };
                    if rest < 10 { 10 } else if rest > 80 { 80 } else { rest }
                },
                None => 40,
            },
        }
    }

    /// A theme showing `spinner`, with everything else as in [`Theme::new`].
    pub fn from_spinner(spinner: Spinner) -> (t: Theme<G, C>)
        ensures
            t.spinner == Some(spinner),
            t.bar is None,
            t.bar_width is None,
            t.layout.segments@ == default_segments::<G, C>(),
            t.layout.separator@ == seq![' '],
            t.output == Output::Stdout,
    {
        Theme::new().with_spinner(spinner)
    }

    /// The theme that animates out of the box: the three-dot braille spinner, no
    /// bar, the default layout.
    pub fn animated() -> (t: Theme<G, C>)
        ensures
            t.spinner is Some && t.spinner->0.frames == Frames::Chars("⠖⠲⠴⠦"),
            t.spinner is Some && t.spinner->0.interval == default_interval(),
            t.bar is None,
            t.bar_width is None,
            t.layout.segments@ == default_segments::<G, C>(),
            t.layout.separator@ == seq![' '],
            t.output == Output::Stdout,
    {
        Theme::new().with_spinner(styles::dots_3())
    }
}

/// A derived bar width always lies within `10..=80`.
pub proof fn lemma_auto_bar_width_range(terminal_columns: Option<u16>)
    ensures
        10 <= auto_bar_width(terminal_columns) <= 80,
{
}

} // verus!

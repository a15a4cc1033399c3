//! Progress bar UI element.
//!
//! A [`Bar`] is a pair of characters (one for the filled portion, one for the
//! empty portion) together with optional borders, an in-between separator, and
//! per-portion styling or gradient coloring. Pre-defined variants live in the
//! [`styles`] module.
//!
//! A bar of width `w` with `f` filled cells renders, in order: the left border,
//! `f` filled characters, the in-between separator, `w - f` (at least zero) empty
//! characters, and the right border. Borders and separator lie outside the width.
//!
//! The gradient type `G` is opaque here: the colors a gradient gives each cell
//! are supplied by the caller as a function of the cell index.

pub mod styles;

use vstd::prelude::*;
use vstd::string::*;

use crate::color::{
    colors_from, lemma_painted_ends_outside, lemma_painted_shows_glyphs, painted, push_run, repeat, ColorLevel, Rgb,
};
use crate::style::{lemma_styled_ends_outside, lemma_styled_shows_text, styled, TextStyle};
use crate::visible::{escape_after, lemma_plain_visible, lemma_visible_concat, no_esc, visible};

verus! {

/// How a gradient is mapped across a bar's cells.
#[derive(Clone, Copy, PartialEq, Eq, Debug, Structural)]
pub enum Axis {
    /// `t = position / (width - 1)`: colors are fixed to absolute column.
    Width,
    /// `t = fill fraction`: every cell shares one color derived from how full the
    /// bar is.
    Fraction,
}

/// Progress bar style characters.
#[derive(Clone)]
pub struct Bar<G> {
    /// Character to symbolize incompleteness.
    pub empty: Option<char>,
    /// Character to symbolize completeness.
    pub complete: Option<char>,
    /// Characters in between complete and incomplete.
    pub in_between: Option<&'static str>,
    /// Left border.
    pub left_border: Option<&'static str>,
    /// Right border.
    pub right_border: Option<&'static str>,
    /// Style applied to the filled portion of the bar.
    pub filled_style: Option<TextStyle>,
    /// Style applied to the empty portion of the bar.
    pub empty_style: Option<TextStyle>,
    /// Gradient and mapping for the filled portion; takes precedence over
    /// `filled_style`.
    pub filled_gradient: Option<(G, Axis)>,
    /// Gradient and mapping for the empty portion; takes precedence over
    /// `empty_style`.
    pub empty_gradient: Option<(G, Axis)>,
}

/// The bar with characters `empty` and `complete` and nothing else.
pub open spec fn bar_of<G>(empty: char, complete: char) -> Bar<G> {
    Bar {
        empty: Some(empty),
        complete: Some(complete),
        in_between: None,
        left_border: None,
        right_border: None,
        filled_style: None,
        empty_style: None,
        filled_gradient: None,
        empty_gradient: None,
    }
}

/// The text of an optional border or separator.
pub open spec fn opt_text(s: Option<&'static str>) -> Seq<char> {
    match s {
        Some(t) => t@,
        None => Seq::empty(),
    }
}

#[verifier::opaque]
/// One run of `count` copies of the character `ch` (nothing when the bar has no
/// such character): painted cell by cell with `colors` when a gradient is set,
/// otherwise wrapped in `style` when one is set, otherwise plain.
pub open spec fn run_text(
    ch: Option<char>,
    count: nat,
    has_gradient: bool,
    style: Option<TextStyle>,
    level: ColorLevel,
    colors: Seq<Rgb>,
) -> Seq<char> {
    match ch {
        None => Seq::empty(),
        Some(c) => if has_gradient {
            painted(level, repeat(c, count), colors)
        } else {
            match style {
                Some(s) => styled(s, repeat(c, count)),
                None => repeat(c, count),
            }
        },
    }
}

/// The number of empty cells of a bar `width` wide with `filled` filled cells.
pub open spec fn empty_cells(width: nat, filled: nat) -> nat {
    if filled >= width { 0 } else { (width - filled) as nat }
}

/// The rendering of `bar` at `width` with `filled` filled cells, the filled cells
/// colored by `fc` and the empty ones by `ec` where gradients are set.
pub open spec fn bar_text<G>(
    bar: Bar<G>,
    width: nat,
    filled: nat,
    level: ColorLevel,
    fc: Seq<Rgb>,
    ec: Seq<Rgb>,
) -> Seq<char> {
    opt_text(bar.left_border)
        + run_text(bar.complete, filled, bar.filled_gradient is Some, bar.filled_style, level, fc)
        + opt_text(bar.in_between)
        + run_text(bar.empty, empty_cells(width, filled), bar.empty_gradient is Some, bar.empty_style, level, ec)
        + opt_text(bar.right_border)
}

/// The colors `colors` are what `color_at` gives the `count` cells of a run,
/// wherever the run asks for them (a gradient at a color level other than none).
#[verifier::opaque]
pub open spec fn run_colors_ok<F: Fn(usize) -> Rgb>(
    ch: Option<char>,
    has_gradient: bool,
    level: ColorLevel,
    color_at: F,
    colors: Seq<Rgb>,
    count: nat,
) -> bool {
    (ch is Some && has_gradient && level != ColorLevel::NoColor) ==> colors_from(color_at, colors, count)
}

fn push_opt(buf: &mut String, s: Option<&'static str>)
    ensures
        final(buf)@ == old(buf)@ + opt_text(s),
{
    match s {
        Some(t) => buf.append(t),
        None => {
            assert(buf@ =~= buf@ + opt_text(s));
        },
    }
}

fn push_plain_run(buf: &mut String, c: char, count: usize)
    ensures
        final(buf)@ == old(buf)@ + repeat(c, count as nat),
{
    let ghost b0 = buf@;
    let mut i: usize = 0;
    while i < count
        invariant
            i <= count,
            buf@ == b0 + repeat(c, i as nat),
        decreases count - i,
    {
        buf.push(c);
        proof {
            assert(repeat(c, (i + 1) as nat) =~= repeat(c, i as nat).push(c));
        }
        i = i + 1;
    }
}

/// Render one run of `count` copies of `ch`. A gradient, when present, colors per
/// cell through `color_at` and takes precedence over a solid `style`.
fn render_run<F: Fn(usize) -> Rgb>(
    buf: &mut String,
    ch: Option<char>,
    count: usize,
    has_gradient: bool,
    style: &Option<TextStyle>,
    level: ColorLevel,
    color_at: F,
)
    requires
        forall|i: usize| i < count ==> call_requires(color_at, (i,)),
    ensures
        exists|colors: Seq<Rgb>|
            run_colors_ok(ch, has_gradient, level, color_at, colors, count as nat)
            && final(buf)@ == old(buf)@ + run_text(ch, count as nat, has_gradient, *style, level, colors),
{
    reveal(run_text);
    reveal(run_colors_ok);
    let ghost b0 = buf@;
    match ch {
        None => {
            assert(run_colors_ok(ch, has_gradient, level, color_at, Seq::empty(), count as nat));
            assert(buf@ =~= b0 + run_text(ch, count as nat, has_gradient, *style, level, Seq::empty()));
        },
        Some(c) => {
            if has_gradient {
                push_run(buf, c, count, level, color_at);
                if level == ColorLevel::NoColor {
                    assert(run_colors_ok(ch, has_gradient, level, color_at, Seq::empty(), count as nat));
                    assert(buf@ == b0 + run_text(ch, count as nat, has_gradient, *style, level, Seq::empty()));
                } else {
                    let ghost colors = choose|colors: Seq<Rgb>|
                        colors_from(color_at, colors, count as nat)
                        && buf@ == b0 + painted(level, repeat(c, count as nat), colors);
                    assert(run_colors_ok(ch, has_gradient, level, color_at, colors, count as nat));
                    assert(buf@ == b0 + run_text(ch, count as nat, has_gradient, *style, level, colors));
                }
            } else {
                match style {
                    Some(s) => {
                        buf.append(s.prefix.as_str());
                        push_plain_run(buf, c, count);
                        buf.append(s.suffix.as_str());
                        assert(buf@ =~= b0 + styled(*s, repeat(c, count as nat)));
                    },
                    None => {
                        push_plain_run(buf, c, count);
                    },
                }
                assert(run_colors_ok(ch, has_gradient, level, color_at, Seq::empty(), count as nat));
                assert(buf@ == b0 + run_text(ch, count as nat, has_gradient, *style, level, Seq::empty()));
            }
        },
    }
}

impl<G> Bar<G> {
    /// Create a new bar from the character used for the empty portion and the
    /// character used for the filled portion, with no borders, separator, styles or
    /// gradients.
    pub fn new(empty: char, complete: char) -> (b: Bar<G>)
        ensures
            b == bar_of::<G>(empty, complete),
    {
        Bar {
            empty: Some(empty),
            complete: Some(complete),
            in_between: None,
            left_border: None,
            right_border: None,
            filled_style: None,
            empty_style: None,
            filled_gradient: None,
            empty_gradient: None,
        }
    }

    /// A bar without characters: it renders nothing but its (absent) borders.
    pub fn empty() -> (b: Bar<G>)
        ensures
            b.empty is None,
            b.complete is None,
            b.in_between is None,
            b.left_border is None,
            b.right_border is None,
            b.filled_style is None,
            b.empty_style is None,
            b.filled_gradient is None,
            b.empty_gradient is None,
    {
        Bar {
            empty: None,
            complete: None,
            in_between: None,
            left_border: None,
            right_border: None,
            filled_style: None,
            empty_style: None,
            filled_gradient: None,
            empty_gradient: None,
        }
    }

    /// Append the bar to `buf` at `width` columns with `filled` filled cells. Where a
    /// portion has a gradient, `filled_color(i)` (`empty_color(i)`) is the color of
    /// cell `i` of that portion's run; they are asked only at a color level other
    /// than none.
    #[verifier::rlimit(30)]
    pub fn render_cells<F: Fn(usize) -> Rgb, E: Fn(usize) -> Rgb>(
        &self,
        buf: &mut String,
        width: usize,
        filled: usize,
        level: ColorLevel,
        filled_color: F,
        empty_color: E,
    )
        requires
            forall|i: usize| i < filled ==> call_requires(filled_color, (i,)),
            forall|i: usize| i < empty_cells(width as nat, filled as nat) ==> call_requires(empty_color, (i,)),
        ensures
            exists|fc: Seq<Rgb>, ec: Seq<Rgb>|
                run_colors_ok(self.complete, self.filled_gradient is Some, level, filled_color, fc, filled as nat)
                && run_colors_ok(self.empty, self.empty_gradient is Some, level, empty_color, ec,
                    empty_cells(width as nat, filled as nat))
                && final(buf)@ == old(buf)@ + bar_text(*self, width as nat, filled as nat, level, fc, ec),
    {
        let ghost b0 = buf@;
        let remaining: usize = if filled >= width { 0 } else { width - filled };
        push_opt(buf, self.left_border);
        let ghost b1 = buf@;
        render_run(buf, self.complete, filled, self.filled_gradient.is_some(), &self.filled_style, level, filled_color);
        let ghost fc = choose|colors: Seq<Rgb>|
            run_colors_ok(self.complete, self.filled_gradient is Some, level, filled_color, colors, filled as nat)
            && buf@ == b1 + #[trigger] run_text(self.complete, filled as nat, self.filled_gradient is Some, self.filled_style, level, colors);
        let ghost r1 = run_text(self.complete, filled as nat, self.filled_gradient is Some, self.filled_style, level, fc);
        push_opt(buf, self.in_between);
        let ghost b2 = buf@;
        render_run(buf, self.empty, remaining, self.empty_gradient.is_some(), &self.empty_style, level, empty_color);
        let ghost ec = choose|colors: Seq<Rgb>|
            run_colors_ok(self.empty, self.empty_gradient is Some, level, empty_color, colors, remaining as nat)
            && buf@ == b2 + #[trigger] run_text(self.empty, remaining as nat, self.empty_gradient is Some, self.empty_style, level, colors);
        let ghost r2 = run_text(self.empty, remaining as nat, self.empty_gradient is Some, self.empty_style, level, ec);
        push_opt(buf, self.right_border);
        proof {
            assert(b1 == b0 + opt_text(self.left_border));
            assert(b2 == b0 + opt_text(self.left_border) + r1 + opt_text(self.in_between)) by {
                assert(b2 =~= b0 + opt_text(self.left_border) + r1 + opt_text(self.in_between));
            }
            assert(remaining as nat == empty_cells(width as nat, filled as nat));
            assert(buf@ =~= b0 + bar_text(*self, width as nat, filled as nat, level, fc, ec));
        }
    }

    /// Insert `chars` between the filled and empty portions.
    pub fn with_in_between(self, chars: &'static str) -> (b: Bar<G>)
        ensures
            b == (Bar { in_between: Some(chars), ..self }),
    {
        Bar { in_between: Some(chars), ..self }
    }

    /// Wrap the bar with `left` and `right` border strings.
    pub fn with_border(self, left: &'static str, right: &'static str) -> (b: Bar<G>)
        ensures
            b == (Bar { left_border: Some(left), right_border: Some(right), ..self }),
    {
        Bar { left_border: Some(left), right_border: Some(right), ..self }
    }

    /// Style the filled portion of the bar.
    pub fn with_filled_style(self, style: owo_colors::Style) -> (b: Bar<G>)
        ensures
            b.filled_style is Some && b.filled_style->0.written_for(style) && b.filled_style->0.wf(),
            b == (Bar { filled_style: b.filled_style, ..self }),
    {
        Bar { filled_style: Some(TextStyle::from_owo(style)), ..self }
    }

    /// Style the empty portion of the bar.
    pub fn with_empty_style(self, style: owo_colors::Style) -> (b: Bar<G>)
        ensures
            b.empty_style is Some && b.empty_style->0.written_for(style) && b.empty_style->0.wf(),
            b == (Bar { empty_style: b.empty_style, ..self }),
    {
        Bar { empty_style: Some(TextStyle::from_owo(style)), ..self }
    }

    /// Color the filled portion with `gradient`, mapped across the bar by `axis`.
    pub fn with_filled_gradient(self, gradient: G, axis: Axis) -> (b: Bar<G>)
        ensures
            b == (Bar { filled_gradient: Some((gradient, axis)), ..self }),
    {
        Bar { filled_gradient: Some((gradient, axis)), ..self }
    }

    /// Color the empty portion with `gradient`, mapped across the bar by `axis`.
    pub fn with_empty_gradient(self, gradient: G, axis: Axis) -> (b: Bar<G>)
        ensures
            b == (Bar { empty_gradient: Some((gradient, axis)), ..self }),
    {
        Bar { empty_gradient: Some((gradient, axis)), ..self }
    }
}

/// The text of an optional border or separator holds no `ESC`.
pub open spec fn plain_opt(s: Option<&'static str>) -> bool {
    no_esc(opt_text(s))
}

/// The characters a run shows.
pub open spec fn run_glyphs(ch: Option<char>, count: nat) -> Seq<char> {
    match ch {
        Some(c) => repeat(c, count),
        None => Seq::empty(),
    }
}

proof fn lemma_repeat_plain(c: char, n: nat)
    requires
        c != '\x1b',
    ensures
        no_esc(repeat(c, n)),
{
}

proof fn lemma_run_visible(
    ch: Option<char>,
    count: nat,
    has_gradient: bool,
    style: Option<TextStyle>,
    level: ColorLevel,
    colors: Seq<Rgb>,
)
    requires
        ch is Some ==> ch->0 != '\x1b',
        style is Some ==> style->0.wf(),
        colors.len() == count,
    ensures
        visible(run_text(ch, count, has_gradient, style, level, colors)) == run_glyphs(ch, count),
        !escape_after(run_text(ch, count, has_gradient, style, level, colors), false),
{
    reveal(run_text);
    match ch {
        None => {
            assert(visible(Seq::<char>::empty()) =~= Seq::<char>::empty());
        },
        Some(c) => {
            lemma_repeat_plain(c, count);
            lemma_plain_visible(repeat(c, count));
            if has_gradient {
                lemma_painted_shows_glyphs(level, repeat(c, count), colors);
                lemma_painted_ends_outside(level, repeat(c, count), colors);
            } else {
                match style {
                    Some(st) => {
                        lemma_styled_shows_text(st, repeat(c, count));
                        lemma_styled_ends_outside(st, repeat(c, count));
                    },
                    None => {},
                }
            }
        },
    }
}

/// A bar shows its cells: stripped of escapes, the rendering is the left border,
/// `filled` filled characters, the separator, `width - filled` (at least zero)
/// empty characters and the right border, whatever its styles, gradients, colors
/// or the color level.
pub proof fn lemma_bar_shows_cells<G>(bar: Bar<G>, width: nat, filled: nat, level: ColorLevel, fc: Seq<Rgb>, ec: Seq<Rgb>)
    requires
        plain_opt(bar.left_border),
        plain_opt(bar.in_between),
        plain_opt(bar.right_border),
        bar.complete is Some ==> bar.complete->0 != '\x1b',
        bar.empty is Some ==> bar.empty->0 != '\x1b',
        bar.filled_style is Some ==> bar.filled_style->0.wf(),
        bar.empty_style is Some ==> bar.empty_style->0.wf(),
        fc.len() == filled,
        ec.len() == empty_cells(width, filled),
    ensures
        visible(bar_text(bar, width, filled, level, fc, ec)) == opt_text(bar.left_border)
            + run_glyphs(bar.complete, filled) + opt_text(bar.in_between)
            + run_glyphs(bar.empty, empty_cells(width, filled)) + opt_text(bar.right_border),
{
    let l = opt_text(bar.left_border);
    let r1 = run_text(bar.complete, filled, bar.filled_gradient is Some, bar.filled_style, level, fc);
    let m = opt_text(bar.in_between);
    let r2 = run_text(bar.empty, empty_cells(width, filled), bar.empty_gradient is Some, bar.empty_style, level, ec);
    let r = opt_text(bar.right_border);
    lemma_plain_visible(l);
    lemma_plain_visible(m);
    lemma_plain_visible(r);
    lemma_run_visible(bar.complete, filled, bar.filled_gradient is Some, bar.filled_style, level, fc);
    lemma_run_visible(bar.empty, empty_cells(width, filled), bar.empty_gradient is Some, bar.empty_style, level, ec);
    lemma_visible_concat(l, r1, false);
    lemma_visible_concat(l + r1, m, false);
    lemma_visible_concat(l + r1 + m, r2, false);
    lemma_visible_concat(l + r1 + m + r2, r, false);
}

/// A full-width bar: with at most `width` filled cells, the filled and the empty
/// runs together take exactly `width` cells.
pub proof fn lemma_bar_fills_width(width: nat, filled: nat)
    requires
        filled <= width,
    ensures
        filled + empty_cells(width, filled) == width,
{
}

} // verus!

//! Composable, ordered layout for progress output.
//!
//! A [`Layout`] is an ordered list of [`Segment`]s joined by a separator. Each
//! segment pulls its value from a [`RenderContext`]; a segment with nothing to
//! show contributes no output and is skipped when joining, so the separator only
//! ever stands between two segments that do produce output.
//!
//! Values that the caller measures with floating point (the elapsed time at a
//! segment's precision, a gradient's colors, a custom segment's text) reach a
//! segment through its [`SegmentInput`]; everything else is rendered here.

use vstd::prelude::*;
use vstd::string::*;

use crate::color::{painted, push_painted, ColorLevel, Rgb};
use crate::style::{styled, TextStyle};
use crate::text::chars_of;
use crate::units::{bytes_iec, eta_text, push_bytes_iec, push_eta};

verus! {

/// How a gradient fills a spinner.
#[derive(Clone, Copy, PartialEq, Eq, Debug, Structural)]
pub enum SpinnerFill {
    /// Spread the gradient across the frame's cells, left to right.
    Cells,
    /// Pulse the whole frame through the gradient over time: every cell shares one
    /// color sampled by a triangle wave over the spinner's tick count, completing a
    /// full breathe every `2 * period` ticks.
    Pulse(u32),
}

/// A single renderable element of a [`Layout`]. `G` is the gradient type, `C`
/// the type of a custom renderer.
#[derive(Clone)]
pub enum Segment<G, C> {
    /// The spinner frame.
    Spinner {
        /// Explicit style; falls back to the context's spinner style when `None`.
        /// Ignored when `gradient` is set.
        style: Option<TextStyle>,
        /// Optional gradient and how it fills the spinner.
        gradient: Option<(G, SpinnerFill)>,
    },
    /// Elapsed time, e.g. `1.23s`, with an optional border such as `[` … `]`.
    Elapsed {
        /// Style applied to the whole token, border included.
        style: Option<TextStyle>,
        /// Optional `(left, right)` border.
        border: Option<(String, String)>,
        /// Digits after the decimal point.
        precision: u8,
    },
    /// The progress bar.
    Bar,
    /// Static label text.
    Label {
        /// Explicit style; falls back to the context's annotation style when `None`.
        style: Option<TextStyle>,
        /// Fixed field width in characters; text is padded or truncated to fit.
        width: Option<usize>,
    },
    /// Dynamic message text, rendered unstyled.
    Message,
    /// Cumulative bytes transferred, with the total when known.
    Bytes,
    /// Smoothed transfer rate, e.g. `1.23 MiB/s`.
    Rate,
    /// Estimated time remaining.
    Eta,
    /// Fixed literal text, always rendered.
    Literal(String),
    /// Arbitrary user-supplied rendering; its text arrives as the segment's input.
    Custom(C),
}

/// What the caller measured for one segment.
pub enum SegmentInput {
    /// Nothing measured.
    Absent,
    /// A piece of text: the elapsed seconds at the segment's precision (`1.50`), or
    /// a custom segment's output.
    Text(String),
    /// One color per cell of the spinner frame.
    Colors(Vec<Rgb>),
}

/// Values available to a [`Segment`] at render time. Fields that hold an
/// [`Option`] signal absence — the corresponding segment then renders nothing.
pub struct RenderContext<'a> {
    /// Current spinner frame, if the spinner has ticked at least once.
    pub spinner: Option<&'a str>,
    /// Number of spinner ticks so far.
    pub spinner_tick: u64,
    /// Whether the elapsed time should be rendered at all.
    pub show_elapsed: bool,
    /// The rendered bar, present when progress is tracked.
    pub bar: Option<&'a str>,
    /// Cumulative bytes transferred.
    pub bytes_done: u64,
    /// Total bytes expected, if known.
    pub bytes_total: Option<u64>,
    /// Transfer rate in whole bytes per second, if enough samples are available.
    pub rate: Option<u64>,
    /// Whole seconds remaining, estimated from a positive rate, if available.
    pub eta_secs: Option<u64>,
    /// Static label text, if any.
    pub label: Option<&'a str>,
    /// Dynamic message text, if any.
    pub message: Option<&'a str>,
    /// Fallback style for spinner segments.
    pub spinner_style: TextStyle,
    /// Fallback style for label segments.
    pub annotation_style: TextStyle,
    /// How much color the terminal renders.
    pub color_level: ColorLevel,
}

pub open spec fn style_or(style: Option<TextStyle>, fallback: TextStyle) -> TextStyle {
    match style {
        Some(s) => s,
        None => fallback,
    }
}

pub open spec fn opt_str(s: Option<&str>) -> Seq<char> {
    match s {
        Some(t) => t@,
        None => Seq::empty(),
    }
}

pub open spec fn input_text(input: SegmentInput) -> Seq<char> {
    match input {
        SegmentInput::Text(s) => s@,
        _ => Seq::empty(),
    }
}

pub open spec fn input_colors(input: SegmentInput) -> Seq<Rgb> {
    match input {
        SegmentInput::Colors(v) => v@,
        _ => Seq::empty(),
    }
}

/// `n` spaces.
pub open spec fn spaces(n: nat) -> Seq<char> {
    Seq::new(n, |i: int| ' ')
}

/// `text` left-aligned in a field of `width` characters: truncated to `width`
/// characters, then padded with spaces to `width`.
pub open spec fn fit(text: Seq<char>, width: nat) -> Seq<char> {
    if text.len() >= width {
        text.take(width as int)
    } else {
        text + spaces((width - text.len()) as nat)
    }
}

/// The elapsed token: left border, seconds, `s`, right border.
pub open spec fn elapsed_token(border: Option<(String, String)>, secs: Seq<char>) -> Seq<char> {
    match border {
        Some((l, r)) => l@ + secs + seq!['s'] + r@,
        None => secs + seq!['s'],
    }
}

/// What `seg` renders for `ctx` given its measured `input`.
pub open spec fn segment_text<G, C>(seg: Segment<G, C>, ctx: RenderContext, input: SegmentInput) -> Seq<char> {
    match seg {
        Segment::Spinner { style, gradient } => match ctx.spinner {
            None => Seq::empty(),
            Some(frame) => match gradient {
                Some(_) => painted(ctx.color_level, frame@, input_colors(input)),
                None => styled(style_or(style, ctx.spinner_style), frame@),
            },
        },
        Segment::Elapsed { style, border, precision } => if !ctx.show_elapsed {
            Seq::empty()
        } else {
            match style {
                Some(s) => styled(s, elapsed_token(border, input_text(input))),
                None => elapsed_token(border, input_text(input)),
            }
        },
        Segment::Bar => opt_str(ctx.bar),
        Segment::Label { style, width } => match ctx.label {
            None => Seq::empty(),
            Some(l) => styled(style_or(style, ctx.annotation_style), match width {
                Some(w) => fit(l@, w as nat),
                None => l@,
            }),
        },
        Segment::Message => opt_str(ctx.message),
        Segment::Bytes => if ctx.bytes_done == 0 && ctx.bytes_total is None {
            Seq::empty()
        } else {
            bytes_iec(ctx.bytes_done as nat) + match ctx.bytes_total {
                Some(t) => seq![' ', '/', ' '] + bytes_iec(t as nat),
                None => Seq::empty(),
            }
        },
        Segment::Rate => match ctx.rate {
            Some(r) => bytes_iec(r as nat) + seq!['/', 's'],
            None => Seq::empty(),
        },
        Segment::Eta => match (ctx.bytes_total, ctx.eta_secs) {
            (Some(t), Some(s)) => if t > ctx.bytes_done { eta_text(s as nat) } else { Seq::empty() },
            _ => Seq::empty(),
        },
        Segment::Literal(text) => text@,
        Segment::Custom(_) => input_text(input),
    }
}

/// The input a segment needs: a color per frame cell for a gradient spinner
/// painted at a color level other than none.
pub open spec fn input_fits<G, C>(seg: Segment<G, C>, ctx: RenderContext, input: SegmentInput) -> bool {
    match seg {
        Segment::Spinner { style, gradient } => (gradient is Some && ctx.spinner is Some
            && ctx.color_level != ColorLevel::NoColor) ==> (input is Colors
            && input_colors(input).len() == ctx.spinner->0@.len()),
        _ => true,
    }
}

/// `parts` joined by `sep`, skipping empty parts: the separator stands only
/// between two non-empty parts.
pub open spec fn join_nonempty(parts: Seq<Seq<char>>, sep: Seq<char>) -> Seq<char>
    decreases parts.len(),
{
    if parts.len() == 0 {
        Seq::empty()
    } else {
        let prev = join_nonempty(parts.drop_last(), sep);
        let last = parts.last();
        if last.len() == 0 {
            prev
        } else if prev.len() == 0 {
            last
        } else {
            prev + sep + last
        }
    }
}

/// The non-empty parts of `parts`, in order.
pub open spec fn nonempty_parts(parts: Seq<Seq<char>>) -> Seq<Seq<char>>
    decreases parts.len(),
{
    if parts.len() == 0 {
        Seq::empty()
    } else if parts.last().len() == 0 {
        nonempty_parts(parts.drop_last())
    } else {
        nonempty_parts(parts.drop_last()).push(parts.last())
    }
}

/// `parts` joined by `sep`, a separator between every two neighbours.
pub open spec fn join_all(parts: Seq<Seq<char>>, sep: Seq<char>) -> Seq<char>
    decreases parts.len(),
{
    if parts.len() == 0 {
        Seq::empty()
    } else if parts.len() == 1 {
        parts[0]
    } else {
        join_all(parts.drop_last(), sep) + sep + parts.last()
    }
}

/// The part each segment of `segments` renders.
pub open spec fn parts_of<G, C>(segments: Seq<Segment<G, C>>, ctx: RenderContext, inputs: Seq<SegmentInput>) -> Seq<Seq<char>> {
    Seq::new(segments.len(), |i: int| segment_text(segments[i], ctx, inputs[i]))
}

proof fn lemma_nonempty_parts_all_nonempty(parts: Seq<Seq<char>>)
    ensures
        forall|i: int| 0 <= i < nonempty_parts(parts).len() ==> #[trigger] nonempty_parts(parts)[i].len() > 0,
    decreases parts.len(),
{
    if parts.len() > 0 {
        let init = parts.drop_last();
        lemma_nonempty_parts_all_nonempty(init);
        let np = nonempty_parts(init);
        if parts.last().len() > 0 {
            assert forall|i: int| 0 <= i < nonempty_parts(parts).len() implies #[trigger] nonempty_parts(parts)[i].len() > 0 by {
                assert(nonempty_parts(parts) == np.push(parts.last()));
                if i < np.len() {
                    assert(nonempty_parts(parts)[i] == np[i]);
                }
            }
        }
    }
}

proof fn lemma_join_all_empty(parts: Seq<Seq<char>>, sep: Seq<char>)
    requires
        forall|i: int| 0 <= i < parts.len() ==> #[trigger] parts[i].len() > 0,
    ensures
        (join_all(parts, sep).len() == 0) == (parts.len() == 0),
    decreases parts.len(),
{
    if parts.len() > 1 {
        assert(parts.last().len() > 0);
    } else if parts.len() == 1 {
        assert(parts[0].len() > 0);
    }
}

/// Layouts skip what renders nothing: joining the parts skipping empty ones is
/// the same as dropping the empty parts and putting the separator between every
/// two remaining neighbours.
pub proof fn lemma_join_skips_empty(parts: Seq<Seq<char>>, sep: Seq<char>)
    ensures
        join_nonempty(parts, sep) == join_all(nonempty_parts(parts), sep),
    decreases parts.len(),
{
    if parts.len() > 0 {
        let init = parts.drop_last();
        lemma_join_skips_empty(init, sep);
        if parts.last().len() > 0 {
            let np = nonempty_parts(init);
            lemma_nonempty_parts_all_nonempty(init);
            lemma_join_all_empty(np, sep);
            assert(nonempty_parts(parts) == np.push(parts.last()));
            assert(np.push(parts.last()).drop_last() =~= np);
            if np.len() == 0 {
                assert(join_all(np.push(parts.last()), sep) == parts.last());
            } else {
                assert(join_all(np.push(parts.last()), sep) == join_all(np, sep) + sep + parts.last());
            }
        }
    }
}

/// Layouts skip what renders nothing: a layout renders exactly the non-empty
/// outputs of its segments, in order, with the separator between every two of
/// them and nowhere else.
pub proof fn lemma_layout_skips_empty_segments<G, C>(layout: Layout<G, C>, ctx: RenderContext, inputs: Seq<SegmentInput>)
    ensures
        layout_text(layout, ctx, inputs) == join_all(nonempty_parts(parts_of(layout.segments@, ctx, inputs)), layout.separator@),
{
    lemma_join_skips_empty(parts_of(layout.segments@, ctx, inputs), layout.separator@);
}

/// Spinner and label segments fall back to their own styles from the context: a
/// label without a style of its own is painted with the annotation style, a
/// spinner without one with the spinner style, and one with a style of its own is
/// painted with that; a label with a width is fitted to it first.
pub proof fn lemma_segments_fall_back_to_context_styles<G, C>(
    ctx: RenderContext,
    input: SegmentInput,
    own: TextStyle,
    width: usize,
)
    ensures
        ctx.label is Some ==> segment_text(Segment::<G, C>::Label { style: None, width: None }, ctx, input)
            == ctx.annotation_style.prefix@ + ctx.label->0@ + ctx.annotation_style.suffix@,
        ctx.label is Some ==> segment_text(Segment::<G, C>::Label { style: Some(own), width: None }, ctx, input)
            == own.prefix@ + ctx.label->0@ + own.suffix@,
        ctx.label is Some ==> segment_text(Segment::<G, C>::Label { style: None, width: Some(width) }, ctx, input)
            == ctx.annotation_style.prefix@ + fit(ctx.label->0@, width as nat) + ctx.annotation_style.suffix@,
        ctx.label is None ==> segment_text(Segment::<G, C>::Label { style: None, width: None }, ctx, input).len() == 0,
        ctx.spinner is Some ==> segment_text(Segment::<G, C>::Spinner { style: None, gradient: None }, ctx, input)
            == ctx.spinner_style.prefix@ + ctx.spinner->0@ + ctx.spinner_style.suffix@,
        ctx.spinner is Some ==> segment_text(Segment::<G, C>::Spinner { style: Some(own), gradient: None }, ctx, input)
            == own.prefix@ + ctx.spinner->0@ + own.suffix@,
{
}

/// Which segments show up: the elapsed time exactly when it is to be shown, the
/// byte count unless nothing was transferred and no total is known, the rate
/// exactly when it is known, the remaining time exactly when a total, an
/// estimate and bytes still to come are all there, and the bar and the message
/// exactly as the context holds them.
pub proof fn lemma_segment_visibility<G, C>(ctx: RenderContext, input: SegmentInput, border: Option<(String, String)>, precision: u8)
    ensures
        segment_text(Segment::<G, C>::Elapsed { style: None, border, precision }, ctx, input).len() > 0
            <==> ctx.show_elapsed,
        segment_text(Segment::<G, C>::Bytes, ctx, input).len() == 0 <==> ctx.bytes_done == 0 && ctx.bytes_total is None,
        segment_text(Segment::<G, C>::Rate, ctx, input).len() == 0 <==> ctx.rate is None,
        segment_text(Segment::<G, C>::Eta, ctx, input).len() > 0 <==> ctx.bytes_total is Some && ctx.eta_secs is Some
            && ctx.bytes_total->0 > ctx.bytes_done,
        segment_text(Segment::<G, C>::Bar, ctx, input) == opt_str(ctx.bar),
        segment_text(Segment::<G, C>::Message, ctx, input) == opt_str(ctx.message),
{
}

/// The segments of the default layout: elapsed time (two decimals), spinner,
/// label, bar and message.
pub open spec fn default_segments<G, C>() -> Seq<Segment<G, C>> {
    seq![
        Segment::<G, C>::Elapsed { style: None, border: None, precision: 2 },
        Segment::<G, C>::Spinner { style: None, gradient: None },
        Segment::<G, C>::Label { style: None, width: None },
        Segment::<G, C>::Bar,
        Segment::<G, C>::Message,
    ]
}

/// An ordered, composable description of how progress output is rendered.
#[derive(Clone)]
pub struct Layout<G, C> {
    /// The segments, in rendering order.
    pub segments: Vec<Segment<G, C>>,
    /// Inserted between segments that produce output.
    pub separator: String,
}

/// What `layout` renders for `ctx` given the segments' inputs.
pub open spec fn layout_text<G, C>(layout: Layout<G, C>, ctx: RenderContext, inputs: Seq<SegmentInput>) -> Seq<char> {
    join_nonempty(parts_of(layout.segments@, ctx, inputs), layout.separator@)
}

fn push_fit(buf: &mut String, text: &str, width: usize)
    ensures
        final(buf)@ == old(buf)@ + fit(text@, width as nat),
{
    let ghost b0 = buf@;
    let cs = chars_of(text);
    let n: usize = if cs.len() < width { cs.len() } else { width };
    let mut i: usize = 0;
    while i < n
        invariant
            cs@ == text@,
            n <= cs.len(),
            i <= n,
            buf@ == b0 + cs@.take(i as int),
        decreases n - i,
    {
        buf.push(cs[i]);
        proof {
            assert(cs@.take(i + 1) =~= cs@.take(i as int).push(cs@[i as int]));
        }
        i = i + 1;
    }
    let mut j: usize = n;
    while j < width
        invariant
            cs@ == text@,
            n <= cs.len(),
            n <= j <= width || (n == cs.len() && n > width && j == n),
            j >= n,
            buf@ == b0 + cs@.take(n as int) + spaces((j - n) as nat),
        decreases width - j,
    {
        buf.push(' ');
        proof {
            assert(spaces((j + 1 - n) as nat) =~= spaces((j - n) as nat).push(' '));
        }
        j = j + 1;
    }
    proof {
        if cs.len() >= width {
            assert(n == width);
            assert(buf@ =~= b0 + fit(text@, width as nat));
        } else {
            assert(cs@.take(n as int) =~= cs@);
            assert(buf@ =~= b0 + fit(text@, width as nat));
        }
    }
}

fn push_opt_str(buf: &mut String, s: Option<&str>)
    ensures
        final(buf)@ == old(buf)@ + opt_str(s),
{
    match s {
        Some(t) => buf.append(t),
        None => {
            assert(buf@ =~= buf@ + opt_str(s));
        },
    }
}

fn input_str(input: &SegmentInput) -> (s: &str)
    ensures
        s@ == input_text(*input),
{
    match input {
        SegmentInput::Text(t) => t.as_str(),
        _ => {
            proof { reveal_strlit(""); }
            ""
        },
    }
}

fn push_elapsed_token(buf: &mut String, border: &Option<(String, String)>, secs: &str)
    ensures
        final(buf)@ == old(buf)@ + elapsed_token(*border, secs@),
{
    let ghost b0 = buf@;
    match border {
        Some((l, r)) => {
            buf.append(l.as_str());
            buf.append(secs);
            buf.append("s");
            buf.append(r.as_str());
        },
        None => {
            buf.append(secs);
            buf.append("s");
        },
    }
    proof {
        reveal_strlit("s");
        assert(buf@ =~= b0 + elapsed_token(*border, secs@));
    }
}

impl<G, C> Segment<G, C> {
    /// Append what this segment renders for `ctx` given its measured `input`.
    pub fn render(&self, ctx: &RenderContext, input: &SegmentInput, buf: &mut String)
        requires
            input_fits(*self, *ctx, *input),
        ensures
            final(buf)@ == old(buf)@ + segment_text(*self, *ctx, *input),
    {
        let ghost b0 = buf@;
        match self {
            Segment::Spinner { style, gradient } => {
                match ctx.spinner {
                    None => {
                        assert(buf@ =~= b0 + segment_text(*self, *ctx, *input));
                    },
                    Some(frame) => {
                        if gradient.is_some() {
                            let cells = chars_of(frame);
                            if ctx.color_level == ColorLevel::NoColor {
                                buf.append(frame);
                                assert(buf@ =~= b0 + segment_text(*self, *ctx, *input));
                            } else {
                                match input {
                                    SegmentInput::Colors(colors) => {
                                        push_painted(buf, ctx.color_level, &cells, colors);
                                    },
                                    _ => {},
                                }
                            }
                        } else {
                            match style {
                                Some(s) => s.push_styled(buf, frame),
                                None => ctx.spinner_style.push_styled(buf, frame),
                            }
                        }
                    },
                }
            },
            Segment::Elapsed { style, border, precision } => {
                if !ctx.show_elapsed {
                    assert(buf@ =~= b0 + segment_text(*self, *ctx, *input));
                    return;
                }
                let secs = input_str(input);
                match style {
                    Some(s) => {
                        buf.append(s.prefix.as_str());
                        push_elapsed_token(buf, border, secs);
                        buf.append(s.suffix.as_str());
                        assert(buf@ =~= b0 + segment_text(*self, *ctx, *input));
                    },
                    None => {
                        push_elapsed_token(buf, border, secs);
                    },
                }
            },
            Segment::Bar => {
                push_opt_str(buf, ctx.bar);
            },
            Segment::Label { style, width } => {
                match ctx.label {
                    None => {
                        assert(buf@ =~= b0 + segment_text(*self, *ctx, *input));
                    },
                    Some(l) => {
                        let st = match style {
                            Some(s) => s,
                            None => &ctx.annotation_style,
                        };
                        buf.append(st.prefix.as_str());
                        match width {
                            Some(w) => push_fit(buf, l, *w),
                            None => buf.append(l),
                        }
                        buf.append(st.suffix.as_str());
                        assert(buf@ =~= b0 + segment_text(*self, *ctx, *input));
                    },
                }
            },
            Segment::Message => {
                push_opt_str(buf, ctx.message);
            },
            Segment::Bytes => {
                if ctx.bytes_done == 0 && ctx.bytes_total.is_none() {
                    assert(buf@ =~= b0 + segment_text(*self, *ctx, *input));
                    return;
                }
                push_bytes_iec(buf, ctx.bytes_done);
                match ctx.bytes_total {
                    Some(t) => {
                        buf.append(" / ");
                        push_bytes_iec(buf, t);
                        proof { reveal_strlit(" / "); }
                    },
                    None => {},
                }
                assert(buf@ =~= b0 + segment_text(*self, *ctx, *input));
            },
            Segment::Rate => {
                match ctx.rate {
                    Some(r) => {
                        push_bytes_iec(buf, r);
                        buf.append("/s");
                        proof { reveal_strlit("/s"); }
                        assert(buf@ =~= b0 + segment_text(*self, *ctx, *input));
                    },
                    None => {
                        assert(buf@ =~= b0 + segment_text(*self, *ctx, *input));
                    },
                }
            },
            Segment::Eta => {
                match (ctx.bytes_total, ctx.eta_secs) {
                    (Some(t), Some(s)) => {
                        if t > ctx.bytes_done {
                            push_eta(buf, s);
                        } else {
                            assert(buf@ =~= b0 + segment_text(*self, *ctx, *input));
                        }
                    },
                    _ => {
                        assert(buf@ =~= b0 + segment_text(*self, *ctx, *input));
                    },
                }
            },
            Segment::Literal(text) => {
                buf.append(text.as_str());
            },
            Segment::Custom(_) => {
                buf.append(input_str(input));
            },
        }
    }
}


impl<G, C> Segment<G, C> {
    /// A spinner segment with no explicit style or gradient.
    pub fn spinner() -> (s: Segment<G, C>)
        ensures
            s == (Segment::<G, C>::Spinner { style: None, gradient: None }),
    {
        Segment::Spinner { style: None, gradient: None }
    }

    /// An elapsed-time segment: no style, no border, two digits of precision.
    pub fn elapsed() -> (s: Segment<G, C>)
        ensures
            s == (Segment::<G, C>::Elapsed { style: None, border: None, precision: 2 }),
    {
        Segment::Elapsed { style: None, border: None, precision: 2 }
    }

    /// A progress-bar segment.
    pub fn bar() -> (s: Segment<G, C>)
        ensures
            s == Segment::<G, C>::Bar,
    {
        Segment::Bar
    }

    /// A label segment with no explicit style and no fixed width.
    pub fn label() -> (s: Segment<G, C>)
        ensures
            s == (Segment::<G, C>::Label { style: None, width: None }),
    {
        Segment::Label { style: None, width: None }
    }

    /// A message segment.
    pub fn message() -> (s: Segment<G, C>)
        ensures
            s == Segment::<G, C>::Message,
    {
        Segment::Message
    }

    /// A segment showing cumulative bytes transferred, with the total when known.
    pub fn bytes() -> (s: Segment<G, C>)
        ensures
            s == Segment::<G, C>::Bytes,
    {
        Segment::Bytes
    }

    /// A segment showing the transfer rate.
    pub fn rate() -> (s: Segment<G, C>)
        ensures
            s == Segment::<G, C>::Rate,
    {
        Segment::Rate
    }

    /// A segment showing the estimated time remaining.
    pub fn eta() -> (s: Segment<G, C>)
        ensures
            s == Segment::<G, C>::Eta,
    {
        Segment::Eta
    }

    /// A fixed literal-text segment.
    pub fn literal(text: &str) -> (s: Segment<G, C>)
        ensures
            s is Literal && s->Literal_0@ == text@,
    {
        Segment::Literal(String::from_str(text))
    }

    /// A custom segment driven by `f`.
    pub fn custom(f: C) -> (s: Segment<G, C>)
        ensures
            s == Segment::<G, C>::Custom(f),
    {
        Segment::Custom(f)
    }

    /// Set an explicit style on a spinner, elapsed or label segment; other segments
    /// are returned unchanged.
    pub fn with_style(self, style: owo_colors::Style) -> (s: Segment<G, C>)
        ensures
            match self {
                Segment::Spinner { gradient, .. } => s matches Segment::Spinner { style: Some(t), gradient: g }
                    && g == gradient && t.written_for(style) && t.wf(),
                Segment::Elapsed { border, precision, .. } => s matches Segment::Elapsed { style: Some(t), border: b, precision: p }
                    && b == border && p == precision && t.written_for(style) && t.wf(),
                Segment::Label { width, .. } => s matches Segment::Label { style: Some(t), width: w }
                    && w == width && t.written_for(style) && t.wf(),
                _ => s == self,
            },
    {
        match self {
            Segment::Spinner { gradient, .. } => Segment::Spinner { style: Some(TextStyle::from_owo(style)), gradient },
            Segment::Elapsed { border, precision, .. } => Segment::Elapsed {
                style: Some(TextStyle::from_owo(style)),
                border,
                precision,
            },
            Segment::Label { width, .. } => Segment::Label { style: Some(TextStyle::from_owo(style)), width },
            other => other,
        }
    }

    /// Color a spinner segment with `gradient`, filled per `fill`; takes precedence
    /// over an explicit style. Other segments are returned unchanged.
    pub fn with_gradient(self, gradient: G, fill: SpinnerFill) -> (s: Segment<G, C>)
        ensures
            match self {
                Segment::Spinner { style, .. } => s == (Segment::<G, C>::Spinner { style, gradient: Some((gradient, fill)) }),
                _ => s == self,
            },
    {
        match self {
            Segment::Spinner { style, .. } => Segment::Spinner { style, gradient: Some((gradient, fill)) },
            other => other,
        }
    }

    /// Wrap an elapsed segment with `left` and `right` border strings. Other segments
    /// are returned unchanged.
    pub fn with_border(self, left: &str, right: &str) -> (s: Segment<G, C>)
        ensures
            match self {
                Segment::Elapsed { style, precision, .. } => s matches Segment::Elapsed { style: st, border: Some((l, r)), precision: p }
                    && st == style && p == precision && l@ == left@ && r@ == right@,
                _ => s == self,
            },
    {
        match self {
            Segment::Elapsed { style, precision, .. } => Segment::Elapsed {
                style,
                border: Some((String::from_str(left), String::from_str(right))),
                precision,
            },
            other => other,
        }
    }

    /// Set the decimal precision of an elapsed segment. Other segments are returned
    /// unchanged.
    pub fn with_precision(self, precision: u8) -> (s: Segment<G, C>)
        ensures
            match self {
                Segment::Elapsed { style, border, .. } => s == (Segment::<G, C>::Elapsed { style, border, precision }),
                _ => s == self,
            },
    {
        match self {
            Segment::Elapsed { style, border, .. } => Segment::Elapsed { style, border, precision },
            other => other,
        }
    }

    /// Set a fixed field width on a label segment; text is padded with spaces or
    /// truncated to fit. Other segments are returned unchanged.
    pub fn with_width(self, width: usize) -> (s: Segment<G, C>)
        ensures
            match self {
                Segment::Label { style, .. } => s == (Segment::<G, C>::Label { style, width: Some(width) }),
                _ => s == self,
            },
    {
        match self {
            Segment::Label { style, .. } => Segment::Label { style, width: Some(width) },
            other => other,
        }
    }
}

/// A label of fixed width always takes exactly that many characters: longer text
/// is truncated, shorter text padded, and what is kept is the text's beginning.
pub proof fn lemma_fit_width(text: Seq<char>, width: nat)
    ensures
        fit(text, width).len() == width,
        fit(text, width).take(if text.len() < width { text.len() as int } else { width as int })
            == text.take(if text.len() < width { text.len() as int } else { width as int }),
{
    if text.len() < width {
        assert(fit(text, width).take(text.len() as int) =~= text.take(text.len() as int));
    }
}

/// The triangle wave over `2 * period` ticks (a zero period counts as one) as the
/// fraction `num / den`: rising from 0 to 1 over `period` ticks, then falling back.
pub open spec fn triangle_spec(tick: nat, period: nat) -> (nat, nat) {
    let p = if period == 0 { 1nat } else { period };
    let phase = tick % (2 * p);
    if phase <= p { (phase, p) } else { ((2 * p - phase) as nat, p) }
}

/// The triangle wave repeats every `2 * period` ticks, and its value stays
/// within `0..=1`.
pub proof fn lemma_triangle_periodic(tick: nat, period: nat)
    ensures
        triangle_spec(tick + 2 * (if period == 0 { 1nat } else { period }), period) == triangle_spec(tick, period),
        triangle_spec(tick, period).0 <= triangle_spec(tick, period).1,
        triangle_spec(tick, period).1 > 0,
{
    let p = if period == 0 { 1nat } else { period };
    vstd::arithmetic::div_mod::lemma_mod_add_multiples_vanish(tick as int, (2 * p) as int);
    vstd::arithmetic::div_mod::lemma_mod_bound(tick as int, (2 * p) as int);
}

/// The triangle wave over `2 * period` ticks as an exact fraction `(num, den)` with
/// `num <= den`, driving a pulsing spinner gradient.
pub fn triangle(tick: u64, period: u32) -> (r: (u64, u64))
    ensures
        (r.0 as nat, r.1 as nat) == triangle_spec(tick as nat, period as nat),
        r.0 <= r.1,
        r.1 > 0,
{
    let p: u64 = if period == 0 { 1 } else { period as u64 };
    let phase = tick % (2 * p);
    if phase <= p { (phase, p) } else { (2 * p - phase, p) }
}

impl<G, C> Layout<G, C> {
    /// A layout of `segments`, joined by a single space.
    pub fn new(segments: Vec<Segment<G, C>>) -> (l: Layout<G, C>)
        ensures
            l.segments@ == segments@,
            l.separator@ == seq![' '],
    {
        proof { reveal_strlit(" "); }
        Layout { segments, separator: String::from_str(" ") }
    }

    /// A layout of `segments`, joined by a single space.
    pub fn from_segments(segments: Vec<Segment<G, C>>) -> (l: Layout<G, C>)
        ensures
            l.segments@ == segments@,
            l.separator@ == seq![' '],
    {
        Layout::new(segments)
    }

    /// The default layout: elapsed time, spinner, label, bar and message, joined by
    /// a single space.
    pub fn default_layout() -> (l: Layout<G, C>)
        ensures
            l.segments@ == default_segments::<G, C>(),
            l.separator@ == seq![' '],
    {
        let mut segments: Vec<Segment<G, C>> = Vec::new();
        segments.push(Segment::elapsed());
        segments.push(Segment::spinner());
        segments.push(Segment::label());
        segments.push(Segment::bar());
        segments.push(Segment::message());
        let l = Layout::new(segments);
        assert(l.segments@ =~= default_segments::<G, C>());
        l
    }

    /// Append `segment`.
    pub fn with_segment(self, segment: Segment<G, C>) -> (l: Layout<G, C>)
        ensures
            l.segments@ == self.segments@.push(segment),
            l.separator == self.separator,
    {
        let mut segments = self.segments;
        segments.push(segment);
        Layout { segments, separator: self.separator }
    }

    /// Set the separator inserted between non-empty segments.
    pub fn with_separator(self, separator: &str) -> (l: Layout<G, C>)
        ensures
            l.segments == self.segments,
            l.separator@ == separator@,
    {
        Layout { segments: self.segments, separator: String::from_str(separator) }
    }

    /// Render the layout for `ctx`, appending to `buf`: each segment renders with
    /// its input, segments that produce no output are skipped, and the separator
    /// is inserted only between segments that do produce output.
    pub fn render(&self, ctx: &RenderContext, inputs: &Vec<SegmentInput>, buf: &mut String)
        requires
            inputs.len() == self.segments.len(),
            forall|i: int| 0 <= i < inputs.len() ==> input_fits(#[trigger] self.segments@[i], *ctx, inputs@[i]),
        ensures
            final(buf)@ == old(buf)@ + layout_text(*self, *ctx, inputs@),
    {
        let ghost b0 = buf@;
        let ghost parts = parts_of(self.segments@, *ctx, inputs@);
        let mut first = true;
        let mut i: usize = 0;
        while i < self.segments.len()
            invariant
                inputs.len() == self.segments.len(),
                forall|k: int| 0 <= k < inputs.len() ==> input_fits(#[trigger] self.segments@[k], *ctx, inputs@[k]),
                parts == parts_of(self.segments@, *ctx, inputs@),
                i <= self.segments.len(),
                buf@ == b0 + join_nonempty(parts.take(i as int), self.separator@),
                first == (join_nonempty(parts.take(i as int), self.separator@).len() == 0),
            decreases self.segments.len() - i,
        {
            let mut part = String::new();
            self.segments[i].render(ctx, &inputs[i], &mut part);
            assert(part@ =~= parts[i as int]);
            proof {
                assert(parts.take(i + 1).drop_last() =~= parts.take(i as int));
                assert(parts.take(i + 1).last() == parts[i as int]);
            }
            if !part.as_str().is_empty() {
                if !first {
                    buf.append(self.separator.as_str());
                }
                buf.append(part.as_str());
                first = false;
            }
            i = i + 1;
        }
        proof {
            assert(parts.take(self.segments.len() as int) =~= parts);
        }
    }
}

} // verus!

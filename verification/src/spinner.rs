//! Spinner UI element.
//!
//! A [`Spinner`] holds a sequence of animation frames and a tick interval. Its
//! [`Ticks`] hand out one frame per tick, cycling forever. A frame is a string
//! slice: [`Spinner::new`] makes each character of a string one frame,
//! [`Spinner::frames`] takes explicit (possibly multi-cell) frames.

pub mod styles;

use std::time::Duration;

use vstd::prelude::*;
use vstd::string::*;

verus! {

/// A `Duration` of `ms` milliseconds.
pub uninterp spec fn millis_duration(ms: u64) -> Duration;

/// `Duration::from_millis`: the result depends on `ms` alone.
#[verifier::external_body]
fn duration_from_millis(ms: u64) -> (d: Duration)
    ensures
        d == millis_duration(ms),
{
    Duration::from_millis(ms)
}

/// `Duration::MAX`, the interval of ticks that are never armed.
#[verifier::external_body]
fn longest_duration() -> Duration {
    Duration::MAX
}

/// The default animation interval, 80 ms.
pub open spec fn default_interval() -> Duration {
    millis_duration(80)
}

/// The source of a spinner's animation frames.
#[derive(Clone, Copy)]
pub enum Frames {
    /// Each `char` of the string is one frame.
    Chars(&'static str),
    /// Each `&str` of the slice is one frame.
    Strs(&'static [&'static str]),
}

/// The frames of `f`, in order, each as its characters.
pub open spec fn frame_seq(f: Frames) -> Seq<Seq<char>> {
    match f {
        Frames::Chars(s) => Seq::new(s@.len(), |i: int| seq![s@[i]]),
        Frames::Strs(v) => Seq::new(v@.len(), |i: int| v@[i]@),
    }
}

impl Frames {
    /// Whether there are no frames at all, the sentinel for an inactive spinner.
    pub fn is_empty(&self) -> (r: bool)
        ensures
            r == (frame_seq(*self).len() == 0),
    {
        match self {
            Frames::Chars(s) => s.is_empty(),
            Frames::Strs(f) => f.len() == 0,
        }
    }

    /// Number of frames in one cycle.
    pub fn len(&self) -> (n: usize)
        ensures
            n == frame_seq(*self).len(),
    {
        match self {
            Frames::Chars(s) => s.unicode_len(),
            Frames::Strs(f) => f.len(),
        }
    }

    /// The frame at `index`, or `None` when out of range.
    pub fn get(&self, index: usize) -> (r: Option<&'static str>)
        ensures
            index < frame_seq(*self).len() ==> r is Some && r->0@ == frame_seq(*self)[index as int],
            index >= frame_seq(*self).len() ==> r is None,
    {
        match self {
            Frames::Chars(s) => {
                if index < s.unicode_len() {
                    let f = s.substring_char(index, index + 1);
                    assert(f@ =~= seq![s@[index as int]]);
                    Some(f)
                } else {
                    None
                }
            },
            Frames::Strs(f) => {
                if index < f.len() {
                    Some(f[index])
                } else {
                    None
                }
            },
        }
    }
}

/// A spinner that emits a frame at a set interval.
#[derive(Clone, Copy)]
pub struct Spinner {
    /// Frames making up the spinner.
    pub frames: Frames,
    /// Refresh interval.
    pub interval: Duration,
}

impl Spinner {
    /// Create a spinner whose frames are the individual characters of `chars`,
    /// ticking every 80 ms.
    pub fn new(chars: &'static str) -> (s: Spinner)
        ensures
            s.frames == Frames::Chars(chars),
            s.interval == default_interval(),
    {
        Spinner { frames: Frames::Chars(chars), interval: duration_from_millis(80) }
    }

    /// Create a spinner from explicit multi-character `frames`, one `&str` per
    /// frame, ticking every 80 ms.
    pub fn frames(frames: &'static [&'static str]) -> (s: Spinner)
        ensures
            s.frames == Frames::Strs(frames),
            s.interval == default_interval(),
    {
        Spinner { frames: Frames::Strs(frames), interval: duration_from_millis(80) }
    }

    /// Set an animation interval different from the default.
    pub fn with_interval(self, interval: Duration) -> (s: Spinner)
        ensures
            s.frames == self.frames,
            s.interval == interval,
    {
        Spinner { frames: self.frames, interval }
    }

    /// The ticks of this spinner, starting at its first frame. A spinner without
    /// frames yields ticks that are never armed and never produce a frame.
    pub fn ticks(&self) -> (t: Ticks)
        ensures
            t.frames == self.frames,
            t.next == 0,
            t.armed == (frame_seq(self.frames).len() > 0),
            t.interval == self.interval,
            t.handed@ == 0,
            t.wf(),
            t.cycle_ok(),
    {
        proof {
            if frame_seq(self.frames).len() > 0 {
                vstd::arithmetic::div_mod::lemma_small_mod(0, frame_seq(self.frames).len());
            }
        }
        Ticks { frames: self.frames, next: 0, armed: !self.frames.is_empty(), interval: self.interval, handed: Ghost(0) }
    }
}

/// The frame-cycling state behind a spinner's tick stream: which frame comes
/// next, and whether a timer drives it at all.
pub struct Ticks {
    /// All frames to cycle through.
    pub frames: Frames,
    /// Index of the next frame to hand out.
    pub next: usize,
    /// Whether ticks are driven by a timer; `false` for a never-yielding stream.
    pub armed: bool,
    /// Interval between ticks.
    pub interval: Duration,
    /// How many frames have been handed out so far.
    pub handed: Ghost<nat>,
}

impl Ticks {
    /// The next index stays within the cycle.
    pub open spec fn wf(&self) -> bool {
        self.next < frame_seq(self.frames).len() || (self.next == 0 && frame_seq(self.frames).len() == 0)
    }

    /// The next frame is the one that the count of frames handed out so far
    /// reaches in the cycle.
    pub open spec fn cycle_ok(&self) -> bool {
        frame_seq(self.frames).len() > 0 ==> self.next == self.handed@ % frame_seq(self.frames).len()
    }

    /// Ticks that never yield a frame nor arm a timer: used when there is no
    /// spinner to animate or the output is not a terminal.
    pub fn never() -> (t: Ticks)
        ensures
            !t.armed,
            frame_seq(t.frames).len() == 0,
            t.next == 0,
            t.handed@ == 0,
            t.wf(),
            t.cycle_ok(),
    {
        proof { reveal_strlit(""); }
        Ticks { frames: Frames::Chars(""), next: 0, armed: false, interval: longest_duration(), handed: Ghost(0) }
    }

    /// Hand out the next frame and advance, cycling back to the first frame after
    /// the last. `None` only when there are no frames.
    pub fn next_frame(&mut self) -> (r: Option<&'static str>)
        requires
            old(self).wf(),
        ensures
            final(self).wf(),
            final(self).frames == old(self).frames,
            final(self).armed == old(self).armed,
            final(self).interval == old(self).interval,
            frame_seq(old(self).frames).len() == 0 ==> r is None && final(self).next == old(self).next,
            frame_seq(old(self).frames).len() > 0 ==> r is Some
                && r->0@ == frame_seq(old(self).frames)[old(self).next as int]
                && final(self).next == (old(self).next + 1) % (frame_seq(old(self).frames).len() as int)
                && final(self).handed@ == old(self).handed@ + 1,
            old(self).cycle_ok() ==> final(self).cycle_ok(),
            old(self).cycle_ok() && frame_seq(old(self).frames).len() > 0 ==> r->0@
                == frame_seq(old(self).frames)[(old(self).handed@ % frame_seq(old(self).frames).len()) as int],
    {
        let count = self.frames.len();
        if count == 0 {
            return None;
        }
        let frame = self.frames.get(self.next);
        self.next = (self.next + 1) % count;
        self.handed = Ghost(self.handed@ + 1);
        proof {
            if old(self).cycle_ok() {
                lemma_mod_succ(old(self).handed@, count as nat);
            }
        }
        frame
    }
}

/// The frame index after `k` ticks that started at index `start` of a cycle of
/// `len` frames.
pub open spec fn index_after(start: nat, k: nat, len: nat) -> nat
    decreases k,
{
    if k == 0 { start } else { (index_after(start, (k - 1) as nat, len) + 1) % len }
}

/// Ticks cycle: after `k` ticks from the first frame, the next frame is frame
/// `k mod len`, so the cycle repeats every `len` ticks.
pub proof fn lemma_ticks_cycle(k: nat, len: nat)
    requires
        len > 0,
    ensures
        index_after(0, k, len) == k % len,
    decreases k,
{
    if k > 0 {
        lemma_ticks_cycle((k - 1) as nat, len);
        let p = (k - 1) as nat;
        assert(((p % len) + 1) % len == (p + 1) % len) by {
            vstd::arithmetic::div_mod::lemma_fundamental_div_mod(p as int, len as int);
            vstd::arithmetic::div_mod::lemma_mod_multiples_vanish(
                (p / len) as int, ((p % len) + 1) as int, len as int);
            assert(len * (p / len) + ((p % len) + 1) == p + 1);
        }
        assert(index_after(0, k, len) == (index_after(0, p, len) + 1) % len);
        assert(k == p + 1);
    } else {
        vstd::arithmetic::div_mod::lemma_small_mod(0, len);
    }
}

/// The frames that ticks starting at the first of `frames` hand out over `k`
/// ticks, in order.
pub open spec fn frames_handed(frames: Frames, k: nat) -> Seq<Seq<char>>
    decreases k,
{
    if k == 0 {
        Seq::empty()
    } else {
        frames_handed(frames, (k - 1) as nat).push(
            frame_seq(frames)[index_after(0, (k - 1) as nat, frame_seq(frames).len()) as int],
        )
    }
}

/// Ticks cycle through the frames: of the frames handed out over `k` ticks from a
/// fresh start, the one at position `i` is frame `i mod m`, where `m` frames make
/// up the spinner; so the cycle repeats every `m` ticks.
pub proof fn lemma_ticks_hand_out_frames_in_cycle(frames: Frames, k: nat)
    requires
        frame_seq(frames).len() > 0,
    ensures
        frames_handed(frames, k).len() == k,
        forall|i: int| 0 <= i < k ==> #[trigger] frames_handed(frames, k)[i]
            == frame_seq(frames)[i % (frame_seq(frames).len() as int)],
    decreases k,
{
    if k > 0 {
        let p = (k - 1) as nat;
        lemma_frames_handed_cycle_step(frames, p);
        lemma_ticks_hand_out_frames_in_cycle(frames, p);
        lemma_ticks_cycle(p, frame_seq(frames).len());
        assert forall|i: int| 0 <= i < k implies #[trigger] frames_handed(frames, k)[i]
            == frame_seq(frames)[i % (frame_seq(frames).len() as int)] by {
            if i < p {
                assert(frames_handed(frames, k)[i] == frames_handed(frames, p)[i]);
            }
        }
    }
}

proof fn lemma_frames_handed_cycle_step(frames: Frames, p: nat)
    ensures
        frames_handed(frames, p + 1) == frames_handed(frames, p).push(
            frame_seq(frames)[index_after(0, p, frame_seq(frames).len()) as int],
        ),
{
}

proof fn lemma_mod_succ(h: nat, m: nat)
    requires
        m > 0,
    ensures
        ((h % m) + 1) % m == (h + 1) % m,
{
    vstd::arithmetic::div_mod::lemma_fundamental_div_mod(h as int, m as int);
    vstd::arithmetic::div_mod::lemma_mod_multiples_vanish((h / m) as int, ((h % m) + 1) as int, m as int);
    assert(m * (h / m) + ((h % m) + 1) == h + 1);
}

/// The ticks a row animates with: its spinner's when it has one and the output
/// is a terminal, and otherwise ticks that never tick.
pub fn ticks_for(spinner: Option<Spinner>, is_tty: bool) -> (t: Ticks)
    ensures
        spinner is Some && is_tty ==> t.frames == spinner->0.frames && t.next == 0
            && t.armed == (frame_seq(spinner->0.frames).len() > 0) && t.interval == spinner->0.interval,
        !(spinner is Some && is_tty) ==> !t.armed && frame_seq(t.frames).len() == 0,
        t.handed@ == 0,
        t.wf(),
        t.cycle_ok(),
{
    match spinner {
        Some(s) if is_tty => s.ticks(),
        _ => Ticks::never(),
    }
}

} // verus!

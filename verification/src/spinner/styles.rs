//! Pre-defined spinner styles.

use vstd::prelude::*;

use super::{default_interval, frame_seq, Frames, Spinner};

verus! {

/// Arc segment circling: `◜◝◞◟`.
pub fn arc() -> (s: Spinner)
    ensures
        s.frames == Frames::Chars("◜◝◞◟"),
        s.interval == default_interval(),
{
    Spinner::new("◜◝◞◟")
}

/// Braille dots: `⠋⠙⠹⠸⠼⠴⠦⠧⠇⠏`.
pub fn dots() -> (s: Spinner)
    ensures
        s.frames == Frames::Chars("⠋⠙⠹⠸⠼⠴⠦⠧⠇⠏"),
        s.interval == default_interval(),
{
    Spinner::new("⠋⠙⠹⠸⠼⠴⠦⠧⠇⠏")
}

/// Braille dots variant 2: `⠋⠙⠚⠞⠖⠦⠴⠲⠳⠓`.
pub fn dots_2() -> (s: Spinner)
    ensures
        s.frames == Frames::Chars("⠋⠙⠚⠞⠖⠦⠴⠲⠳⠓"),
        s.interval == default_interval(),
{
    Spinner::new("⠋⠙⠚⠞⠖⠦⠴⠲⠳⠓")
}

/// Three braille dots circling: `⠖⠲⠴⠦`.
pub fn dots_3() -> (s: Spinner)
    ensures
        s.frames == Frames::Chars("⠖⠲⠴⠦"),
        s.interval == default_interval(),
{
    Spinner::new("⠖⠲⠴⠦")
}

/// Braille dots bouncing: `⠄⠆⠇⠋⠙⠸⠰⠠⠰⠸⠙⠋⠇⠆`.
pub fn dots_4() -> (s: Spinner)
    ensures
        s.frames == Frames::Chars("⠄⠆⠇⠋⠙⠸⠰⠠⠰⠸⠙⠋⠇⠆"),
        s.interval == default_interval(),
{
    Spinner::new("⠄⠆⠇⠋⠙⠸⠰⠠⠰⠸⠙⠋⠇⠆")
}

/// Braille dots wave: `⠋⠙⠚⠒⠂⠂⠒⠲⠴⠦⠖⠒⠐⠐⠒⠓`.
pub fn dots_5() -> (s: Spinner)
    ensures
        s.frames == Frames::Chars("⠋⠙⠚⠒⠂⠂⠒⠲⠴⠦⠖⠒⠐⠐⠒⠓"),
        s.interval == default_interval(),
{
    Spinner::new("⠋⠙⠚⠒⠂⠂⠒⠲⠴⠦⠖⠒⠐⠐⠒⠓")
}

/// Braille dots breathing: `⠁⠉⠙⠚⠒⠂⠂⠒⠲⠴⠤⠄⠄⠤⠴⠲⠒⠂⠂⠒⠚⠙⠉`.
pub fn dots_6() -> (s: Spinner)
    ensures
        s.frames == Frames::Chars("⠁⠉⠙⠚⠒⠂⠂⠒⠲⠴⠤⠄⠄⠤⠴⠲⠒⠂⠂⠒⠚⠙⠉"),
        s.interval == default_interval(),
{
    Spinner::new("⠁⠉⠙⠚⠒⠂⠂⠒⠲⠴⠤⠄⠄⠤⠴⠲⠒⠂⠂⠒⠚⠙⠉")
}

/// Seven braille dots circling: `⣾⣽⣻⢿⡿⣟⣯⣷`.
pub fn dots_7() -> (s: Spinner)
    ensures
        s.frames == Frames::Chars("⣾⣽⣻⢿⡿⣟⣯⣷"),
        s.interval == default_interval(),
{
    Spinner::new("⣾⣽⣻⢿⡿⣟⣯⣷")
}

/// Braille dots pulsing: `⠁⠁⠉⠙⠚⠒⠂⠂⠒⠲⠴⠤⠄⠄⠤⠠⠠⠤⠦⠖⠒⠐⠐⠒⠓⠋⠉⠈⠈`.
pub fn dots_8() -> (s: Spinner)
    ensures
        s.frames == Frames::Chars("⠁⠁⠉⠙⠚⠒⠂⠂⠒⠲⠴⠤⠄⠄⠤⠠⠠⠤⠦⠖⠒⠐⠐⠒⠓⠋⠉⠈⠈"),
        s.interval == default_interval(),
{
    Spinner::new("⠁⠁⠉⠙⠚⠒⠂⠂⠒⠲⠴⠤⠄⠄⠤⠠⠠⠤⠦⠖⠒⠐⠐⠒⠓⠋⠉⠈⠈")
}

/// Two braille dots circling: `⠃⠉⠘⠰⢠⣀⡄⠆`.
pub fn dots_circle() -> (s: Spinner)
    ensures
        s.frames == Frames::Chars("⠃⠉⠘⠰⢠⣀⡄⠆"),
        s.interval == default_interval(),
{
    Spinner::new("⠃⠉⠘⠰⢠⣀⡄⠆")
}

/// One dot circling in a large square: `⠁⠂⠄⡀⢀⠠⠐⠈`.
pub fn dot_large_square() -> (s: Spinner)
    ensures
        s.frames == Frames::Chars("⠁⠂⠄⡀⢀⠠⠐⠈"),
        s.interval == default_interval(),
{
    Spinner::new("⠁⠂⠄⡀⢀⠠⠐⠈")
}

/// Star: `✶✸✹✺✹✷`.
pub fn star() -> (s: Spinner)
    ensures
        s.frames == Frames::Chars("✶✸✹✺✹✷"),
        s.interval == default_interval(),
{
    Spinner::new("✶✸✹✺✹✷")
}

/// Falling sand: `⠁⠂⠄⡀⡈⡐⡠⣀⣁⣂⣄⣌⣔⣤⣥⣦⣮⣶⣷⣿⡿⠿⢟⠟⡛⠛⠫⢋⠋⠍⡉⠉⠑⠡⢁`.
pub fn sand() -> (s: Spinner)
    ensures
        s.frames == Frames::Chars("⠁⠂⠄⡀⡈⡐⡠⣀⣁⣂⣄⣌⣔⣤⣥⣦⣮⣶⣷⣿⡿⠿⢟⠟⡛⠛⠫⢋⠋⠍⡉⠉⠑⠡⢁"),
        s.interval == default_interval(),
{
    Spinner::new("⠁⠂⠄⡀⡈⡐⡠⣀⣁⣂⣄⣌⣔⣤⣥⣦⣮⣶⣷⣿⡿⠿⢟⠟⡛⠛⠫⢋⠋⠍⡉⠉⠑⠡⢁")
}

/// Knight Rider / K.I.T.T. scanner: a single lit cell `▰` sweeping a six-cell track of dim
/// `▱` and bouncing back.
pub fn knight() -> (s: Spinner)
    ensures
        frame_seq(s.frames) == seq!["▰▱▱▱▱▱"@, "▱▰▱▱▱▱"@, "▱▱▰▱▱▱"@, "▱▱▱▰▱▱"@, "▱▱▱▱▰▱"@, "▱▱▱▱▱▰"@, "▱▱▱▱▰▱"@, "▱▱▱▰▱▱"@, "▱▱▰▱▱▱"@, "▱▰▱▱▱▱"@],
        s.interval == default_interval(),
{
    Spinner::frames(&["▰▱▱▱▱▱", "▱▰▱▱▱▱", "▱▱▰▱▱▱", "▱▱▱▰▱▱", "▱▱▱▱▰▱", "▱▱▱▱▱▰", "▱▱▱▱▰▱", "▱▱▱▰▱▱", "▱▱▰▱▱▱", "▱▰▱▱▱▱"])
}

/// Knight Rider with a fading comet trail (`█` head, `▓▒` tail) sweeping a six-cell track and
/// bouncing back.
pub fn knight_comet() -> (s: Spinner)
    ensures
        frame_seq(s.frames) == seq!["█     "@, "▓█    "@, "▒▓█   "@, " ▒▓█  "@, "  ▒▓█ "@, "   ▒▓█"@, "    █▓"@, "   █▓▒"@, "  █▓▒ "@, " █▓▒  "@],
        s.interval == default_interval(),
{
    Spinner::frames(&["█     ", "▓█    ", "▒▓█   ", " ▒▓█  ", "  ▒▓█ ", "   ▒▓█", "    █▓", "   █▓▒", "  █▓▒ ", " █▓▒  "])
}

/// A ball `●` bouncing back and forth.
pub fn bounce() -> (s: Spinner)
    ensures
        frame_seq(s.frames) == seq!["●    "@, " ●   "@, "  ●  "@, "   ● "@, "    ●"@, "   ● "@, "  ●  "@, " ●   "@],
        s.interval == default_interval(),
{
    Spinner::frames(&["●    ", " ●   ", "  ●  ", "   ● ", "    ●", "   ● ", "  ●  ", " ●   "])
}

/// A block sliding back and forth through a dotted track: `█░░░` … `░░░█` and back.
pub fn bar() -> (s: Spinner)
    ensures
        frame_seq(s.frames) == seq!["█░░░"@, "░█░░"@, "░░█░"@, "░░░█"@, "░░█░"@, "░█░░"@],
        s.interval == default_interval(),
{
    Spinner::frames(&["█░░░", "░█░░", "░░█░", "░░░█", "░░█░", "░█░░"])
}

/// A centred thin line breathing in and out: `──` → `────` → `──────` → `────`.
pub fn pulse() -> (s: Spinner)
    ensures
        frame_seq(s.frames) == seq!["  ──  "@, " ──── "@, "──────"@, " ──── "@],
        s.interval == default_interval(),
{
    Spinner::frames(&["  ──  ", " ──── ", "──────", " ──── "])
}

} // verus!

//! Terminal escape sequences and the choice of output stream.
//!
//! Rendering emits VT100/ANSI escape sequences to the stream selected by
//! [`Output`]. Nothing is written to a stream that is not a terminal.

use vstd::prelude::*;
use vstd::string::*;

use crate::text::{decimal, push_decimal};

verus! {

/// Which standard stream progress rendering is written to.
#[derive(Clone, Copy, Debug, PartialEq, Eq, Structural)]
pub enum Output {
    /// Write progress rendering to standard output.
    Stdout,
    /// Write progress rendering to standard error.
    Stderr,
}

impl Default for Output {
    /// Standard output.
    fn default() -> (o: Output)
        ensures
            o == Output::Stdout,
    {
        Output::Stdout
    }
}

pub open spec fn hide_cursor_seq() -> Seq<char> {
    seq!['\x1b', '[', '?', '2', '5', 'l']
}

pub open spec fn show_cursor_seq() -> Seq<char> {
    seq!['\x1b', '[', '?', '2', '5', 'h']
}

pub open spec fn clear_current_line_seq() -> Seq<char> {
    seq!['\x1b', '[', '2', 'K']
}

pub open spec fn move_to_column_0_seq() -> Seq<char> {
    seq!['\x1b', '[', '1', 'G']
}

pub open spec fn clear_from_cursor_down_seq() -> Seq<char> {
    seq!['\x1b', '[', 'J']
}

/// Clearing a line: clear the current line, then move to the first column.
pub open spec fn clear_line_seq() -> Seq<char> {
    clear_current_line_seq() + move_to_column_0_seq()
}

/// Moving the cursor up `n` lines.
pub open spec fn move_up_seq(n: nat) -> Seq<char> {
    seq!['\x1b', '['] + decimal(n) + seq!['A']
}

/// Restoring the terminal: show the cursor, move to the first column and clear
/// everything from the cursor down.
pub open spec fn reset_seq() -> Seq<char> {
    show_cursor_seq() + move_to_column_0_seq() + clear_from_cursor_down_seq()
}

/// The escape that hides the cursor.
pub fn hide_cursor() -> (s: &'static str)
    ensures
        s@ == hide_cursor_seq(),
{
    proof { reveal_strlit("\x1b[?25l"); }
    "\x1b[?25l"
}

/// The escape that shows the cursor.
pub fn show_cursor() -> (s: &'static str)
    ensures
        s@ == show_cursor_seq(),
{
    proof { reveal_strlit("\x1b[?25h"); }
    "\x1b[?25h"
}

/// Clear the current line and move the cursor to the first column.
pub fn clear_line() -> (s: &'static str)
    ensures
        s@ == clear_line_seq(),
{
    proof {
        reveal_strlit("\x1b[2K\x1b[1G");
        assert(clear_line_seq() =~= seq!['\x1b', '[', '2', 'K', '\x1b', '[', '1', 'G']);
    }
    "\x1b[2K\x1b[1G"
}

/// Append the escape that moves the cursor up `n` lines.
pub fn push_move_up(buf: &mut String, n: u64)
    ensures
        final(buf)@ == old(buf)@ + move_up_seq(n as nat),
{
    let ghost b0 = buf@;
    buf.append("\x1b[");
    push_decimal(buf, n);
    buf.append("A");
    proof {
        reveal_strlit("\x1b[");
        reveal_strlit("A");
        assert(buf@ =~= b0 + move_up_seq(n as nat));
    }
}

/// What restoring the terminal writes to a stream: nothing when the stream is not
/// a terminal (so it can be called unconditionally), otherwise the cursor is shown
/// and everything from the first column of the cursor's line down is cleared.
pub fn reset_sequence(is_terminal: bool) -> (s: String)
    ensures
        !is_terminal ==> s@ == Seq::<char>::empty(),
        is_terminal ==> s@ == reset_seq(),
{
    if !is_terminal {
        return String::new();
    }
    proof {
        reveal_strlit("\x1b[?25h\x1b[1G\x1b[J");
        assert(reset_seq() =~= seq!['\x1b', '[', '?', '2', '5', 'h', '\x1b', '[', '1', 'G', '\x1b', '[', 'J']);
    }
    String::from_str("\x1b[?25h\x1b[1G\x1b[J")
}

/// What a finished standalone line writes when it is dropped: on a terminal the
/// line is cleared and the cursor shown again; nothing otherwise.
pub fn restore_sequence(is_terminal: bool) -> (s: String)
    ensures
        !is_terminal ==> s@ == Seq::<char>::empty(),
        is_terminal ==> s@ == clear_line_seq() + show_cursor_seq(),
{
    if !is_terminal {
        return String::new();
    }
    proof {
        reveal_strlit("\x1b[2K\x1b[1G\x1b[?25h");
        assert(clear_line_seq() + show_cursor_seq()
            =~= seq!['\x1b', '[', '2', 'K', '\x1b', '[', '1', 'G', '\x1b', '[', '?', '2', '5', 'h']);
    }
    String::from_str("\x1b[2K\x1b[1G\x1b[?25h")
}

} // verus!

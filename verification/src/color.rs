//! Colors for bars and spinners: the terminal's color level, the 256-color
//! approximation of an RGB color, and the SGR escapes that paint glyphs.
//!
//! A new escape is emitted only when the color changes from the previous cell,
//! and one reset closes a colored run. At [`ColorLevel::NoColor`] no escape is
//! written at all.

use vstd::prelude::*;
use vstd::string::*;

use crate::text::{chars_of, decimal, push_decimal};
use crate::visible::{
    escape_after, is_escape, lemma_decimal_no_m, lemma_escape_invisible, lemma_no_m_concat,
    lemma_plain_visible, lemma_visible_concat, lemma_wrap_escape, no_esc, no_m, visible,
};

verus! {

/// An 8-bit-per-channel RGB color.
#[derive(Clone, Copy, PartialEq, Eq, Debug, Structural)]
pub struct Rgb(pub u8, pub u8, pub u8);

/// How much color the terminal can render.
#[derive(Clone, Copy, PartialEq, Eq, Debug, Structural)]
pub enum ColorLevel {
    /// No color: glyphs are written without any SGR escapes.
    NoColor,
    /// 256-color palette: RGB is approximated to the nearest xterm-256 index.
    Ansi256,
    /// 24-bit truecolor: RGB is emitted verbatim.
    TrueColor,
}

/// `c` with an ASCII upper-case letter turned lower-case.
pub open spec fn ascii_lower(c: char) -> char {
    if 'A' <= c && c <= 'Z' { ((c as u32) + 32) as char } else { c }
}

/// `s` equals `word`, ignoring ASCII case.
pub open spec fn eq_ignore_ascii_case_spec(s: Seq<char>, word: Seq<char>) -> bool {
    &&& s.len() == word.len()
    &&& forall|i: int| 0 <= i < s.len() ==> #[trigger] ascii_lower(s[i]) == ascii_lower(word[i])
}

/// The color level chosen from the values of the `NO_COLOR`, `COLORTERM` and
/// `TERM` environment variables (`None` when a variable is unset).
pub open spec fn color_level_for(
    no_color: Option<Seq<char>>,
    colorterm: Option<Seq<char>>,
    term: Option<Seq<char>>,
) -> ColorLevel {
    if no_color is Some && no_color->0.len() > 0 {
        ColorLevel::NoColor
    } else if colorterm is Some && (eq_ignore_ascii_case_spec(colorterm->0, seq!['t', 'r', 'u', 'e', 'c', 'o', 'l', 'o', 'r'])
        || eq_ignore_ascii_case_spec(colorterm->0, seq!['2', '4', 'b', 'i', 't'])) {
        ColorLevel::TrueColor
    } else {
        match term {
            Option::None => ColorLevel::NoColor,
            Option::Some(t) => if eq_ignore_ascii_case_spec(t, seq!['d', 'u', 'm', 'b']) {
                ColorLevel::NoColor
            } else {
                ColorLevel::Ansi256
            },
        }
    }
}

/// `s` with every ASCII upper-case letter turned lower-case.
pub open spec fn ascii_lowered(s: Seq<char>) -> Seq<char> {
    s.map_values(|c: char| ascii_lower(c))
}

/// `NO_COLOR` leaves color on: it is unset or empty.
pub open spec fn color_allowed(no_color: Option<Seq<char>>) -> bool {
    no_color is None || no_color->0.len() == 0
}

/// `COLORTERM` asks for 24-bit color: it is `truecolor` or `24bit` in any case.
pub open spec fn asks_truecolor(colorterm: Option<Seq<char>>) -> bool {
    colorterm is Some && (ascii_lowered(colorterm->0) == seq!['t', 'r', 'u', 'e', 'c', 'o', 'l', 'o', 'r']
        || ascii_lowered(colorterm->0) == seq!['2', '4', 'b', 'i', 't'])
}

proof fn lemma_eq_ignore_case_is_lowered_eq(s: Seq<char>, word: Seq<char>)
    requires
        forall|i: int| 0 <= i < word.len() ==> !('A' <= #[trigger] word[i] && word[i] <= 'Z'),
    ensures
        eq_ignore_ascii_case_spec(s, word) <==> ascii_lowered(s) == word,
{
    assert(ascii_lowered(word) =~= word);
    if eq_ignore_ascii_case_spec(s, word) {
        assert(ascii_lowered(s) =~= word);
    }
    if ascii_lowered(s) == word {
        assert forall|i: int| 0 <= i < s.len() implies #[trigger] ascii_lower(s[i]) == ascii_lower(word[i]) by {
            assert(ascii_lowered(s)[i] == ascii_lower(s[i]));
        }
    }
}

/// How the color level follows the environment: a non-empty `NO_COLOR` turns
/// color off; otherwise a `COLORTERM` of `truecolor` or `24bit` (any case) gives
/// 24-bit color; otherwise every terminal that `TERM` names, other than `dumb` (any
/// case), gets the 256-color palette, whether or not `COLORTERM` is set, and an
/// unset `TERM` or a dumb one gets no color.
pub proof fn lemma_color_level_rules(no_color: Option<Seq<char>>, colorterm: Option<Seq<char>>, term: Option<Seq<char>>)
    ensures
        !color_allowed(no_color) ==> color_level_for(no_color, colorterm, term) == ColorLevel::NoColor,
        color_allowed(no_color) && asks_truecolor(colorterm) ==> color_level_for(no_color, colorterm, term)
            == ColorLevel::TrueColor,
        color_allowed(no_color) && !asks_truecolor(colorterm) && term is None ==> color_level_for(
            no_color,
            colorterm,
            term,
        ) == ColorLevel::NoColor,
        color_allowed(no_color) && !asks_truecolor(colorterm) && term is Some && ascii_lowered(term->0) == seq![
            'd',
            'u',
            'm',
            'b',
        ] ==> color_level_for(no_color, colorterm, term) == ColorLevel::NoColor,
        color_allowed(no_color) && !asks_truecolor(colorterm) && term is Some && ascii_lowered(term->0) != seq![
            'd',
            'u',
            'm',
            'b',
        ] ==> color_level_for(no_color, colorterm, term) == ColorLevel::Ansi256,
{
    let tc = seq!['t', 'r', 'u', 'e', 'c', 'o', 'l', 'o', 'r'];
    let bits = seq!['2', '4', 'b', 'i', 't'];
    let dumb = seq!['d', 'u', 'm', 'b'];
    if colorterm is Some {
        lemma_eq_ignore_case_is_lowered_eq(colorterm->0, tc);
        lemma_eq_ignore_case_is_lowered_eq(colorterm->0, bits);
    }
    if term is Some {
        lemma_eq_ignore_case_is_lowered_eq(term->0, dumb);
    }
}

fn to_ascii_lower(c: char) -> (r: char)
    ensures
        r == ascii_lower(c),
{
    if 'A' <= c && c <= 'Z' {
        let u: u32 = (c as u32) + 32;
        assert(u <= 0x7f);
        u as u8 as char
    } else {
        c
    }
}

/// Compare `s` with the lower-case ASCII `word`, ignoring ASCII case.
fn eq_ignore_ascii_case(s: &str, word: &Vec<char>) -> (r: bool)
    ensures
        r == eq_ignore_ascii_case_spec(s@, word@),
{
    let cs = chars_of(s);
    if cs.len() != word.len() {
        return false;
    }
    let mut i: usize = 0;
    while i < cs.len()
        invariant
            cs@ == s@,
            cs.len() == word.len(),
            i <= cs.len(),
            forall|j: int| 0 <= j < i ==> #[trigger] ascii_lower(cs@[j]) == ascii_lower(word@[j]),
        decreases cs.len() - i,
    {
        if to_ascii_lower(cs[i]) != to_ascii_lower(word[i]) {
            return false;
        }
        i = i + 1;
    }
    true
}

/// Decide the terminal's color level from the environment: a non-empty
/// `NO_COLOR` disables color, a `COLORTERM` of `truecolor` or `24bit` (any case)
/// enables 24-bit color, and otherwise a `TERM` other than `dumb` means the
/// 256-color palette.
pub fn detect_color_level(
    no_color: Option<&str>,
    colorterm: Option<&str>,
    term: Option<&str>,
) -> (level: ColorLevel)
    ensures
        level == color_level_for(
            match no_color { Some(s) => Some(s@), None => None },
            match colorterm { Some(s) => Some(s@), None => None },
            match term { Some(s) => Some(s@), None => None },
        ),
{
    if let Some(v) = no_color {
        if !v.is_empty() {
            return ColorLevel::NoColor;
        }
    }
    if let Some(ct) = colorterm {
        let truecolor = vec!['t', 'r', 'u', 'e', 'c', 'o', 'l', 'o', 'r'];
        let bits = vec!['2', '4', 'b', 'i', 't'];
        if eq_ignore_ascii_case(ct, &truecolor) || eq_ignore_ascii_case(ct, &bits) {
            return ColorLevel::TrueColor;
        }
    }
    match term {
        None => ColorLevel::NoColor,
        Some(t) => {
            let dumb = vec!['d', 'u', 'm', 'b'];
            if eq_ignore_ascii_case(t, &dumb) {
                ColorLevel::NoColor
            } else {
                ColorLevel::Ansi256
            }
        },
    }
}

/// Nearest level, `0..=5`, of a channel on the 6×6×6 color cube: `v * 5 / 255`
/// rounded to the nearest integer (there are no ties).
pub open spec fn cube_level(v: nat) -> nat {
    (2 * v + 51) / 102
}

/// The xterm-256 palette index approximating `c`: pure grays use the 24-step gray
/// ramp (and the cube's black and white ends), other colors the 6×6×6 cube.
pub open spec fn ansi256_index(c: Rgb) -> nat {
    let Rgb(r, g, b) = c;
    if r == g && g == b {
        if r < 8 {
            16
        } else if r > 248 {
            231
        } else {
            232 + ((r - 8) * 24 / 247) as nat
        }
    } else {
        16 + 36 * cube_level(r as nat) + 6 * cube_level(g as nat) + cube_level(b as nat)
    }
}

fn cube(v: u8) -> (l: u16)
    ensures
        l == cube_level(v as nat),
        l <= 5,
{
    ((2 * (v as u16) + 51) / 102) as u16
}

/// Approximate an RGB color with the nearest xterm-256 palette index.
pub fn rgb_to_ansi256(c: Rgb) -> (idx: u8)
    ensures
        idx == ansi256_index(c),
{
    let Rgb(r, g, b) = c;
    if r == g && g == b {
        if r < 8 {
            16
        } else if r > 248 {
            231
        } else {
            let step: u16 = ((r as u16) - 8) * 24 / 247;
            assert(step <= 23) by (nonlinear_arith)
                requires step == ((r as u16) - 8) * 24 / 247, 8 <= r <= 248;
            232 + step as u8
        }
    } else {
        (16 + 36 * cube(r) + 6 * cube(g) + cube(b)) as u8
    }
}

/// The foreground SGR escape that paints `color` at `level` (empty at
/// [`ColorLevel::NoColor`]).
pub open spec fn sgr(level: ColorLevel, color: Rgb) -> Seq<char> {
    match level {
        ColorLevel::TrueColor => seq!['\x1b', '[', '3', '8', ';', '2', ';'] + decimal(color.0 as nat)
            + seq![';'] + decimal(color.1 as nat) + seq![';'] + decimal(color.2 as nat) + seq!['m'],
        ColorLevel::Ansi256 => seq!['\x1b', '[', '3', '8', ';', '5', ';'] + decimal(ansi256_index(color))
            + seq!['m'],
        ColorLevel::NoColor => Seq::empty(),
    }
}

/// The SGR reset escape.
pub open spec fn sgr_reset() -> Seq<char> {
    seq!['\x1b', '[', '0', 'm']
}

/// The first `n` cells of a colored run: each glyph is preceded by the escape for
/// its color when that color differs from the previous cell's (always for the
/// first cell).
pub open spec fn painted_prefix(level: ColorLevel, glyphs: Seq<char>, colors: Seq<Rgb>, n: nat) -> Seq<char>
    decreases n,
{
    if n == 0 {
        Seq::empty()
    } else {
        let i = n - 1;
        let escape = if i == 0 || colors[i - 1] != colors[i] { sgr(level, colors[i]) } else { Seq::empty() };
        painted_prefix(level, glyphs, colors, i as nat) + escape + seq![glyphs[i]]
    }
}

/// The whole rendering of `glyphs` painted cell by cell with `colors`: the glyphs
/// alone at [`ColorLevel::NoColor`], otherwise the painted cells followed by one
/// reset (nothing at all for an empty run).
pub open spec fn painted(level: ColorLevel, glyphs: Seq<char>, colors: Seq<Rgb>) -> Seq<char> {
    if level == ColorLevel::NoColor {
        glyphs
    } else if glyphs.len() == 0 {
        Seq::empty()
    } else {
        painted_prefix(level, glyphs, colors, glyphs.len()) + sgr_reset()
    }
}

/// `colors` holds, for each cell `i < n`, a color that `color_at` may return for `i`.
pub open spec fn colors_from<F: Fn(usize) -> Rgb>(color_at: F, colors: Seq<Rgb>, n: nat) -> bool {
    &&& colors.len() == n
    &&& forall|i: int| 0 <= i < n ==> call_ensures(color_at, (i as usize,), #[trigger] colors[i])
}

/// Write the foreground SGR escape for `color` at `level`. Writes nothing at
/// [`ColorLevel::NoColor`].
pub fn push_sgr(buf: &mut String, color: Rgb, level: ColorLevel)
    ensures
        final(buf)@ == old(buf)@ + sgr(level, color),
{
    let Rgb(r, g, b) = color;
    match level {
        ColorLevel::TrueColor => {
            let ghost b0 = buf@;
            buf.append("\x1b[38;2;");
            push_decimal(buf, r as u64);
            buf.append(";");
            push_decimal(buf, g as u64);
            buf.append(";");
            push_decimal(buf, b as u64);
            buf.append("m");
            proof {
                reveal_strlit("\x1b[38;2;");
                reveal_strlit(";");
                reveal_strlit("m");
                assert(buf@ =~= b0 + sgr(level, color));
            }
        },
        ColorLevel::Ansi256 => {
            let ghost b0 = buf@;
            buf.append("\x1b[38;5;");
            push_decimal(buf, rgb_to_ansi256(color) as u64);
            buf.append("m");
            proof {
                reveal_strlit("\x1b[38;5;");
                reveal_strlit("m");
                assert(buf@ =~= b0 + sgr(level, color));
            }
        },
        ColorLevel::NoColor => {
            assert(buf@ =~= buf@ + sgr(level, color));
        },
    }
}

/// Core writer: paint `glyphs[i]` with `colors[i]`, an escape only where the color
/// changes and one reset at the end. Honors `level`.
pub fn push_painted(buf: &mut String, level: ColorLevel, glyphs: &Vec<char>, colors: &Vec<Rgb>)
    requires
        colors.len() == glyphs.len(),
    ensures
        final(buf)@ == old(buf)@ + painted(level, glyphs@, colors@),
{
    let ghost b0 = buf@;
    if level == ColorLevel::NoColor {
        let mut i: usize = 0;
        while i < glyphs.len()
            invariant
                i <= glyphs.len(),
                buf@ == b0 + glyphs@.take(i as int),
            decreases glyphs.len() - i,
        {
            buf.push(glyphs[i]);
            proof {
                assert(glyphs@.take(i + 1) =~= glyphs@.take(i as int).push(glyphs@[i as int]));
            }
            i = i + 1;
        }
        proof {
            assert(glyphs@.take(glyphs.len() as int) =~= glyphs@);
        }
        return;
    }
    let mut i: usize = 0;
    while i < glyphs.len()
        invariant
            level != ColorLevel::NoColor,
            colors.len() == glyphs.len(),
            i <= glyphs.len(),
            buf@ == b0 + painted_prefix(level, glyphs@, colors@, i as nat),
        decreases glyphs.len() - i,
    {
        if i == 0 || colors[i - 1] != colors[i] {
            push_sgr(buf, colors[i], level);
        }
        buf.push(glyphs[i]);
        proof {
            let escape = if i == 0 || colors@[i - 1] != colors@[i as int] {
                sgr(level, colors@[i as int])
            } else {
                Seq::empty()
            };
            assert(painted_prefix(level, glyphs@, colors@, (i + 1) as nat)
                == painted_prefix(level, glyphs@, colors@, i as nat) + escape + seq![glyphs@[i as int]]);
            assert(buf@ =~= b0 + painted_prefix(level, glyphs@, colors@, (i + 1) as nat));
        }
        i = i + 1;
    }
    if glyphs.len() > 0 {
        buf.append("\x1b[0m");
        proof {
            reveal_strlit("\x1b[0m");
            assert(buf@ =~= b0 + painted(level, glyphs@, colors@));
        }
    } else {
        assert(buf@ =~= b0 + painted(level, glyphs@, colors@));
    }
}

/// Ask `color_at` for the color of each of the cells `0..n`.
fn collect_colors<F: Fn(usize) -> Rgb>(n: usize, color_at: &F) -> (colors: Vec<Rgb>)
    requires
        forall|i: usize| i < n ==> call_requires(*color_at, (i,)),
    ensures
        colors_from(*color_at, colors@, n as nat),
{
    let mut colors: Vec<Rgb> = Vec::new();
    let mut i: usize = 0;
    while i < n
        invariant
            i <= n,
            forall|j: usize| j < n ==> call_requires(*color_at, (j,)),
            colors_from(*color_at, colors@, i as nat),
        decreases n - i,
    {
        let c = color_at(i);
        colors.push(c);
        proof {
            assert forall|j: int| 0 <= j < i + 1 implies call_ensures(*color_at, (j as usize,), #[trigger] colors@[j]) by {
                if j < i {
                } else {
                    assert(j as usize == i);
                }
            }
        }
        i = i + 1;
    }
    colors
}

/// Paint the cells `cells`, asking `color_at` for the color of each cell (not
/// at all at [`ColorLevel::NoColor`]).
fn push_cells_of<F: Fn(usize) -> Rgb>(buf: &mut String, level: ColorLevel, cells: &Vec<char>, color_at: F)
    requires
        forall|i: usize| i < cells@.len() ==> call_requires(color_at, (i,)),
    ensures
        level == ColorLevel::NoColor ==> final(buf)@ == old(buf)@ + cells@,
        level != ColorLevel::NoColor ==> exists|colors: Seq<Rgb>|
            colors_from(color_at, colors, cells@.len()) && final(buf)@ == old(buf)@ + painted(level, cells@, colors),
{
    if level == ColorLevel::NoColor {
        let mut colors: Vec<Rgb> = Vec::new();
        let mut i: usize = 0;
        while i < cells.len()
            invariant
                i <= cells.len(),
                colors.len() == i,
            decreases cells.len() - i,
        {
            colors.push(Rgb(0, 0, 0));
            i = i + 1;
        }
        push_painted(buf, level, cells, &colors);
        return;
    }
    let colors = collect_colors(cells.len(), &color_at);
    push_painted(buf, level, cells, &colors);
}

/// Append the characters of `glyphs` to `buf`, coloring char `i` with
/// `color_at(i)` at `level`. `color_at` is not called at [`ColorLevel::NoColor`].
pub fn push_cells<F: Fn(usize) -> Rgb>(buf: &mut String, level: ColorLevel, glyphs: &str, color_at: F)
    requires
        forall|i: usize| i < glyphs@.len() ==> call_requires(color_at, (i,)),
    ensures
        level == ColorLevel::NoColor ==> final(buf)@ == old(buf)@ + glyphs@,
        level != ColorLevel::NoColor ==> exists|colors: Seq<Rgb>|
            colors_from(color_at, colors, glyphs@.len()) && final(buf)@ == old(buf)@ + painted(level, glyphs@, colors),
{
    let cells = chars_of(glyphs);
    push_cells_of(buf, level, &cells, color_at);
}

proof fn lemma_constant_prefix(level: ColorLevel, glyphs: Seq<char>, colors: Seq<Rgb>, c: Rgb, n: nat)
    requires
        1 <= n <= glyphs.len(),
        colors.len() == glyphs.len(),
        forall|i: int| 0 <= i < colors.len() ==> colors[i] == c,
    ensures
        painted_prefix(level, glyphs, colors, n) == sgr(level, c) + glyphs.take(n as int),
    decreases n,
{
    if n == 1 {
        assert(painted_prefix(level, glyphs, colors, 0) == Seq::<char>::empty());
        assert(glyphs.take(1) =~= seq![glyphs[0]]);
        assert(painted_prefix(level, glyphs, colors, 1) =~= sgr(level, c) + glyphs.take(1));
    } else {
        lemma_constant_prefix(level, glyphs, colors, c, (n - 1) as nat);
        assert(colors[n - 2] == colors[n - 1]);
        assert(glyphs.take(n as int) =~= glyphs.take(n - 1).push(glyphs[n - 1]));
        assert(painted_prefix(level, glyphs, colors, n) =~= sgr(level, c) + glyphs.take(n as int));
    }
}

/// Coalescing: a run painted in one constant color gets a single escape up front
/// and a single reset at the end, with the glyphs unchanged in between.
pub proof fn lemma_constant_color_coalesces(level: ColorLevel, glyphs: Seq<char>, colors: Seq<Rgb>, c: Rgb)
    requires
        level != ColorLevel::NoColor,
        glyphs.len() > 0,
        colors.len() == glyphs.len(),
        forall|i: int| 0 <= i < colors.len() ==> colors[i] == c,
    ensures
        painted(level, glyphs, colors) == sgr(level, c) + glyphs + sgr_reset(),
{
    lemma_constant_prefix(level, glyphs, colors, c, glyphs.len());
    assert(glyphs.take(glyphs.len() as int) =~= glyphs);
}

/// Every cell whose color differs from its left neighbour's starts with the escape
/// for its own color: the painted prefix of `n + 1` cells is the prefix of `n`
/// cells, that escape, and the glyph.
pub proof fn lemma_color_change_emits_escape(level: ColorLevel, glyphs: Seq<char>, colors: Seq<Rgb>, n: nat)
    requires
        1 <= n < glyphs.len(),
        colors.len() == glyphs.len(),
        colors[n - 1] != colors[n as int],
    ensures
        painted_prefix(level, glyphs, colors, n + 1)
            == painted_prefix(level, glyphs, colors, n) + sgr(level, colors[n as int]) + seq![glyphs[n as int]],
{
}

proof fn lemma_sgr_escape(level: ColorLevel, c: Rgb)
    ensures
        level == ColorLevel::NoColor ==> sgr(level, c) == Seq::<char>::empty(),
        level != ColorLevel::NoColor ==> is_escape(sgr(level, c)),
{
    lemma_decimal_no_m(c.0 as nat);
    lemma_decimal_no_m(c.1 as nat);
    lemma_decimal_no_m(c.2 as nat);
    lemma_decimal_no_m(ansi256_index(c));
    let semi = seq![';'];
    assert(no_m(semi));
    match level {
        ColorLevel::TrueColor => {
            let head = seq!['[', '3', '8', ';', '2', ';'];
            assert(no_m(head));
            let body = head + decimal(c.0 as nat) + semi + decimal(c.1 as nat) + semi + decimal(c.2 as nat);
            lemma_no_m_concat(head, decimal(c.0 as nat));
            lemma_no_m_concat(head + decimal(c.0 as nat), semi);
            lemma_no_m_concat(head + decimal(c.0 as nat) + semi, decimal(c.1 as nat));
            lemma_no_m_concat(head + decimal(c.0 as nat) + semi + decimal(c.1 as nat), semi);
            lemma_no_m_concat(head + decimal(c.0 as nat) + semi + decimal(c.1 as nat) + semi, decimal(c.2 as nat));
            lemma_wrap_escape(body);
            assert(sgr(level, c) =~= seq!['\x1b'] + body + seq!['m']);
        },
        ColorLevel::Ansi256 => {
            let head = seq!['[', '3', '8', ';', '5', ';'];
            assert(no_m(head));
            let body = head + decimal(ansi256_index(c));
            lemma_no_m_concat(head, decimal(ansi256_index(c)));
            lemma_wrap_escape(body);
            assert(sgr(level, c) =~= seq!['\x1b'] + body + seq!['m']);
        },
        ColorLevel::NoColor => {},
    }
}

proof fn lemma_painted_prefix_visible(level: ColorLevel, glyphs: Seq<char>, colors: Seq<Rgb>, n: nat)
    requires
        n <= glyphs.len(),
        colors.len() == glyphs.len(),
        no_esc(glyphs),
    ensures
        visible(painted_prefix(level, glyphs, colors, n)) == glyphs.take(n as int),
        !escape_after(painted_prefix(level, glyphs, colors, n), false),
    decreases n,
{
    if n == 0 {
        assert(glyphs.take(0) =~= Seq::<char>::empty());
    } else {
        let i = (n - 1) as int;
        lemma_painted_prefix_visible(level, glyphs, colors, (n - 1) as nat);
        let prev = painted_prefix(level, glyphs, colors, (n - 1) as nat);
        let escape = if i == 0 || colors[i - 1] != colors[i] { sgr(level, colors[i]) } else { Seq::empty() };
        let g = seq![glyphs[i]];
        lemma_sgr_escape(level, colors[i]);
        assert(visible(escape) == Seq::<char>::empty() && !escape_after(escape, false)) by {
            if escape.len() > 0 {
                lemma_escape_invisible(escape);
            }
        }
        assert(no_esc(g));
        lemma_plain_visible(g);
        lemma_visible_concat(prev, escape, false);
        lemma_visible_concat(prev + escape, g, false);
        assert(painted_prefix(level, glyphs, colors, n) == prev + escape + g);
        assert(glyphs.take(n as int) =~= glyphs.take(i).push(glyphs[i]));
        assert(visible(painted_prefix(level, glyphs, colors, n)) =~= glyphs.take(n as int));
    }
}

/// Painting changes nothing visible: stripped of its escapes, a painted run shows
/// exactly its glyphs, in order, at every color level and for any colors.
pub proof fn lemma_painted_shows_glyphs(level: ColorLevel, glyphs: Seq<char>, colors: Seq<Rgb>)
    requires
        colors.len() == glyphs.len(),
        no_esc(glyphs),
    ensures
        visible(painted(level, glyphs, colors)) == glyphs,
{
    if level == ColorLevel::NoColor {
        lemma_plain_visible(glyphs);
    } else if glyphs.len() > 0 {
        lemma_painted_prefix_visible(level, glyphs, colors, glyphs.len());
        assert(glyphs.take(glyphs.len() as int) =~= glyphs);
        assert(is_escape(sgr_reset())) by {
            assert(no_m(seq!['[', '0']));
            lemma_wrap_escape(seq!['[', '0']);
            assert(sgr_reset() =~= seq!['\x1b'] + seq!['[', '0'] + seq!['m']);
        }
        lemma_escape_invisible(sgr_reset());
        lemma_visible_concat(painted_prefix(level, glyphs, colors, glyphs.len()), sgr_reset(), false);
        assert(visible(painted(level, glyphs, colors)) =~= glyphs);
    } else {
        assert(visible(painted(level, glyphs, colors)) =~= glyphs);
    }
}

/// A painted run never leaves the terminal inside an escape.
pub proof fn lemma_painted_ends_outside(level: ColorLevel, glyphs: Seq<char>, colors: Seq<Rgb>)
    requires
        colors.len() == glyphs.len(),
        no_esc(glyphs),
    ensures
        !escape_after(painted(level, glyphs, colors), false),
{
    if level == ColorLevel::NoColor {
        lemma_plain_visible(glyphs);
    } else if glyphs.len() > 0 {
        lemma_painted_prefix_visible(level, glyphs, colors, glyphs.len());
        assert(is_escape(sgr_reset())) by {
            assert(no_m(seq!['[', '0']));
            lemma_wrap_escape(seq!['[', '0']);
            assert(sgr_reset() =~= seq!['\x1b'] + seq!['[', '0'] + seq!['m']);
        }
        lemma_escape_invisible(sgr_reset());
        lemma_visible_concat(painted_prefix(level, glyphs, colors, glyphs.len()), sgr_reset(), false);
    }
}

/// `n` copies of `ch`.
pub open spec fn repeat(ch: char, n: nat) -> Seq<char> {
    Seq::new(n, |i: int| ch)
}

/// A vector of `n` copies of `ch`.
pub fn repeated(ch: char, n: usize) -> (v: Vec<char>)
    ensures
        v@ == repeat(ch, n as nat),
{
    let mut v: Vec<char> = Vec::new();
    let mut i: usize = 0;
    while i < n
        invariant
            i <= n,
            v@ == repeat(ch, i as nat),
        decreases n - i,
    {
        v.push(ch);
        proof {
            assert(v@ =~= repeat(ch, (i + 1) as nat));
        }
        i = i + 1;
    }
    v
}

/// Append `n` copies of `ch` to `buf`, coloring cell `i` with `color_at(i)` at
/// `level`: an escape only where the color changes, one reset at the end, and no
/// escapes at all (nor calls of `color_at`) at [`ColorLevel::NoColor`].
pub fn push_run<F: Fn(usize) -> Rgb>(buf: &mut String, ch: char, n: usize, level: ColorLevel, color_at: F)
    requires
        forall|i: usize| i < n ==> call_requires(color_at, (i,)),
    ensures
        level == ColorLevel::NoColor ==> final(buf)@ == old(buf)@ + repeat(ch, n as nat),
        level != ColorLevel::NoColor ==> exists|colors: Seq<Rgb>|
            colors_from(color_at, colors, n as nat)
            && final(buf)@ == old(buf)@ + painted(level, repeat(ch, n as nat), colors),
{
    let cells = repeated(ch, n);
    push_cells_of(buf, level, &cells, color_at);
}

} // verus!

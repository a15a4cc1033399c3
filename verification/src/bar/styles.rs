//! Pre-defined progress bar styles, each a ready-to-use [`Bar`].

use vstd::prelude::*;

use super::{Bar, bar_of};

verus! {

/// Parallelogram blocks: `▱▱▱▰▰▰`.
pub fn parallelogram<G>() -> (b: Bar<G>)
    ensures
        b == bar_of::<G>('▱', '▰'),
{
    Bar::new('▱', '▰')
}

/// Light shading to full block: `░░░███`.
pub fn shaded<G>() -> (b: Bar<G>)
    ensures
        b == bar_of::<G>('░', '█'),
{
    Bar::new('░', '█')
}

/// Light to medium shading: `░░░▒▒▒`.
pub fn medium_shaded<G>() -> (b: Bar<G>)
    ensures
        b == bar_of::<G>('░', '▒'),
{
    Bar::new('░', '▒')
}

/// Medium to dark shading: `▒▒▒▓▓▓`.
pub fn heavy_shaded<G>() -> (b: Bar<G>)
    ensures
        b == bar_of::<G>('▒', '▓'),
{
    Bar::new('▒', '▓')
}

/// Braille dots: `⣀⣀⣀⣿⣿⣿`.
pub fn dotted<G>() -> (b: Bar<G>)
    ensures
        b == bar_of::<G>('⣀', '⣿'),
{
    Bar::new('⣀', '⣿')
}

/// Thin to thick horizontal line: `───━━━`.
pub fn thin_line<G>() -> (b: Bar<G>)
    ensures
        b == bar_of::<G>('─', '━'),
{
    Bar::new('─', '━')
}

/// Triple dash, light to heavy: `┄┄┄┅┅┅`.
pub fn triple_dash<G>() -> (b: Bar<G>)
    ensures
        b == bar_of::<G>('┄', '┅'),
{
    Bar::new('┄', '┅')
}

/// Middle dots, small to large: `···•••`.
pub fn mid_dots<G>() -> (b: Bar<G>)
    ensures
        b == bar_of::<G>('·', '•'),
{
    Bar::new('·', '•')
}

/// Dashed to equals sign: `╌╌╌═══`.
pub fn equals<G>() -> (b: Bar<G>)
    ensures
        b == bar_of::<G>('╌', '═'),
{
    Bar::new('╌', '═')
}

} // verus!

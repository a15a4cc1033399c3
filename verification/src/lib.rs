//! Progress rendering for command line tools: spinners, bars, layouts and the
//! bookkeeping behind them, with every rendering rule stated and proved.

pub mod bar;
pub mod color;
pub mod future;
pub mod group;
pub mod layout;
pub mod progress;
pub mod spinner;
pub mod state;
pub mod stream;
pub mod style;
pub mod term;
pub mod theme;
pub mod text;
pub mod units;
pub mod visible;

use owo_colors::Style;

use strides::bar::{styles, Axis, Bar};
use strides::color::{ColorLevel, Rgb};
use strides::spinner::Frames;
use strides::style::TextStyle;
use strides::term::Output;
use strides::theme::Theme;

type Plain = Bar<()>;

fn black(_: usize) -> Rgb {
    Rgb(0, 0, 0)
}

fn render(bar: &Bar<u8>, width: usize, filled: usize, level: ColorLevel) -> String {
    let mut buf = String::new();
    bar.render_cells(&mut buf, width, filled, level, |i| Rgb(i as u8, 0, 0), |i| Rgb(0, i as u8, 0));
    buf
}

#[test]
fn bar_fills_from_the_left() {
    let bar: Plain = Bar::new('-', '=');
    let mut buf = String::new();
    bar.render_cells(&mut buf, 10, 4, ColorLevel::TrueColor, black, black);
    assert_eq!(buf, "====------");
}

#[test]
fn bar_with_borders_and_separator_stays_width_inside() {
    let bar: Plain = styles::parallelogram().with_border("[", "]").with_in_between(">");
    let mut buf = String::new();
    bar.render_cells(&mut buf, 5, 2, ColorLevel::NoColor, black, black);
    assert_eq!(buf, "[▰▰>▱▱▱]");
}

#[test]
fn overfilled_bar_has_no_empty_cells() {
    let bar: Plain = styles::shaded();
    let mut buf = String::new();
    bar.render_cells(&mut buf, 3, 5, ColorLevel::NoColor, black, black);
    assert_eq!(buf, "█████");
}

#[test]
fn empty_bar_renders_only_borders() {
    let bar: Plain = Bar::empty().with_border("|", "|");
    let mut buf = String::new();
    bar.render_cells(&mut buf, 8, 3, ColorLevel::TrueColor, black, black);
    assert_eq!(buf, "||");
}

#[test]
fn gradient_bar_paints_each_cell() {
    let bar: Bar<u8> = Bar::new('-', '=').with_filled_gradient(7, Axis::Width);
    assert_eq!(render(&bar, 3, 2, ColorLevel::TrueColor), "\x1b[38;2;0;0;0m=\x1b[38;2;1;0;0m=\x1b[0m-");
    assert_eq!(render(&bar, 3, 2, ColorLevel::NoColor), "==-");
}

#[test]
fn styled_bar_wraps_runs_in_escapes() {
    let bar: Plain = Bar::new('-', '=').with_filled_style(Style::new().bold());
    let mut buf = String::new();
    bar.render_cells(&mut buf, 4, 2, ColorLevel::NoColor, black, black);
    assert_eq!(buf, "\x1b[1m==\x1b[0m--");
}

#[test]
fn owo_styles_become_escapes() {
    let bold = TextStyle::from_owo(Style::new().bold());
    assert_eq!(bold.prefix, "\x1b[1m");
    assert_eq!(bold.suffix, "\x1b[0m");
    let plain = TextStyle::from_owo(Style::new());
    assert_eq!(plain.prefix, "");
    assert_eq!(plain.suffix, "");
    let mut buf = String::from(">");
    bold.push_styled(&mut buf, "hi");
    assert_eq!(buf, ">\x1b[1mhi\x1b[0m");
    let copy = bold.duplicate();
    assert_eq!(copy.prefix, bold.prefix);
}

#[test]
fn effective_bar_width_follows_terminal() {
    let theme: Theme<(), ()> = Theme::new();
    assert_eq!(theme.effective_bar_width(None), 40);
    assert_eq!(theme.effective_bar_width(Some(100)), 80);
    assert_eq!(theme.effective_bar_width(Some(101)), 80);
    assert_eq!(theme.effective_bar_width(Some(200)), 80);
    assert_eq!(theme.effective_bar_width(Some(50)), 30);
    assert_eq!(theme.effective_bar_width(Some(25)), 10);
    assert_eq!(theme.effective_bar_width(Some(5)), 10);
    let fixed = theme.with_bar_width(12);
    assert_eq!(fixed.effective_bar_width(Some(200)), 12);
}

#[test]
fn theme_builders() {
    let theme: Theme<(), ()> = Theme::animated();
    let Some(spinner) = theme.spinner else {
        unreachable!("the animated theme has a spinner");
    };
    let Frames::Chars(frames) = spinner.frames else {
        unreachable!("the animated spinner is a char spinner");
    };
    assert_eq!(frames, "⠖⠲⠴⠦");
    assert_eq!(spinner.interval, std::time::Duration::from_millis(80));
    assert_eq!(theme.layout.separator, " ");
    assert!(theme.bar.is_none());
    assert_eq!(theme.output, Output::Stdout);
    let theme = theme.with_output(Output::Stderr).with_bar(styles::dotted());
    assert_eq!(theme.output, Output::Stderr);
    assert_eq!(theme.bar.map(|b| (b.empty, b.complete)), Some((Some('⣀'), Some('⣿'))));
}

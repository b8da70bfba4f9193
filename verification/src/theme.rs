use vstd::prelude::*;

verus! {

/// A colour of the terminal palette.
#[derive(Debug, Clone, Copy, PartialEq, Eq, Structural)]
pub enum Color {
    /// A 24-bit colour.
    Rgb(u8, u8, u8),
    /// The terminal's default colour.
    Reset,
    DarkGray,
    Cyan,
}

/// How a piece of text is drawn.
#[derive(Debug, Clone, Copy, PartialEq, Eq, Structural)]
pub struct Style {
    pub fg: Option<Color>,
    pub bg: Option<Color>,
    pub bold: bool,
    pub underlined: bool,
}

/// Borders and chrome.
pub fn border() -> (c: Color) ensures c == Color::Rgb(100, 160, 200) { Color::Rgb(100, 160, 200) }
/// Panel titles.
pub fn title() -> (c: Color) ensures c == Color::Rgb(220, 220, 255) { Color::Rgb(220, 220, 255) }
/// Ordinary text.
pub fn text() -> (c: Color) ensures c == Color::Rgb(220, 220, 220) { Color::Rgb(220, 220, 220) }
/// Secondary text.
pub fn text_dim() -> (c: Color) ensures c == Color::Rgb(110, 110, 130) { Color::Rgb(110, 110, 130) }
/// Least important text.
pub fn text_faint() -> (c: Color) ensures c == Color::Rgb(70, 70, 90) { Color::Rgb(70, 70, 90) }
/// Background of the selected row.
pub fn row_selected_bg() -> (c: Color) ensures c == Color::Rgb(80, 60, 100) { Color::Rgb(80, 60, 100) }
/// Text of the selected row.
pub fn text_highlight() -> (c: Color) ensures c == Color::Rgb(255, 220, 255) { Color::Rgb(255, 220, 255) }
/// Bars under low load (blue).
pub fn bar_low() -> (c: Color) ensures c == Color::Rgb(80, 180, 220) { Color::Rgb(80, 180, 220) }
/// Bars under medium load (pink).
pub fn bar_med() -> (c: Color) ensures c == Color::Rgb(210, 100, 160) { Color::Rgb(210, 100, 160) }
/// Bars under high load (red).
pub fn bar_high() -> (c: Color) ensures c == Color::Rgb(220, 50, 80) { Color::Rgb(220, 50, 80) }
/// The unfilled part of a bar.
pub fn gauge_bg() -> (c: Color) ensures c == Color::Rgb(40, 40, 55) { Color::Rgb(40, 40, 55) }
/// A rising process in the activity sidebar (red).
pub fn activity_up() -> (c: Color) ensures c == Color::Rgb(220, 80, 100) { Color::Rgb(220, 80, 100) }
/// A falling process in the activity sidebar (green).
pub fn activity_down() -> (c: Color) ensures c == Color::Rgb(80, 200, 160) { Color::Rgb(80, 200, 160) }
/// A steady process in the activity sidebar.
pub fn activity_stable() -> (c: Color) ensures c == Color::Rgb(100, 100, 120) { Color::Rgb(100, 100, 120) }
/// Reserved: a dimmer border.
pub fn border_dim() -> (c: Color) ensures c == Color::Rgb(50, 60, 80) { Color::Rgb(50, 60, 80) }
/// Reserved: background of alternate rows.
pub fn row_alt_bg() -> (c: Color) ensures c == Color::Reset { Color::Reset }

/// A style with only a foreground colour.
pub open spec fn fg(c: Color) -> Style {
    Style { fg: Some(c), bg: None, bold: false, underlined: false }
}

/// A bold style with only a foreground colour.
pub open spec fn fg_bold(c: Color) -> Style {
    Style { fg: Some(c), bg: None, bold: true, underlined: false }
}

/// The style that changes nothing.
pub open spec fn plain() -> Style {
    Style { fg: None, bg: None, bold: false, underlined: false }
}

/// A style drawing text in colour `c`.
pub fn fg_style(c: Color) -> (s: Style)
    ensures
        s == fg(c),
{
    Style { fg: Some(c), bg: None, bold: false, underlined: false }
}

/// A bold style drawing text in colour `c`.
pub fn fg_bold_style(c: Color) -> (s: Style)
    ensures
        s == fg_bold(c),
{
    Style { fg: Some(c), bg: None, bold: true, underlined: false }
}

/// Ordinary text.
pub fn default_style() -> (s: Style) ensures s == fg(Color::Rgb(220, 220, 220)) { fg_style(text()) }

/// Column headers: bold ordinary text.
pub fn header_style() -> (s: Style) ensures s == fg_bold(Color::Rgb(220, 220, 220)) { fg_bold_style(text()) }

/// Secondary text.
pub fn dim_style() -> (s: Style) ensures s == fg(Color::Rgb(110, 110, 130)) { fg_style(text_dim()) }

/// Least important text.
pub fn faint_style() -> (s: Style) ensures s == fg(Color::Rgb(70, 70, 90)) { fg_style(text_faint()) }

/// The selected row: highlighted bold text on the selection background.
pub fn selected_style() -> (s: Style)
    ensures
        s == (Style {
            fg: Some(Color::Rgb(255, 220, 255)),
            bg: Some(Color::Rgb(80, 60, 100)),
            bold: true,
            underlined: false,
        }),
{
    Style { fg: Some(text_highlight()), bg: Some(row_selected_bg()), bold: true, underlined: false }
}

/// Panel borders.
pub fn border_style() -> (s: Style) ensures s == fg(Color::Rgb(100, 160, 200)) { fg_style(border()) }

/// Panel titles: bold title colour.
pub fn title_style() -> (s: Style) ensures s == fg_bold(Color::Rgb(220, 220, 255)) { fg_bold_style(title()) }

/// The bar colour for a load, in hundredths of a percent: blue below 50%,
/// pink below 80%, red from 80% on.
pub open spec fn gauge_color_spec(load: int) -> Color {
    if load < 5000 {
        Color::Rgb(80, 180, 220)
    } else if load < 8000 {
        Color::Rgb(210, 100, 160)
    } else {
        Color::Rgb(220, 50, 80)
    }
}

/// The bar colour for a load given in hundredths of a percent.
pub fn gauge_color(load: u64) -> (c: Color)
    ensures
        c == gauge_color_spec(load as int),
{
    if load < 5000 {
        bar_low()
    } else if load < 8000 {
        bar_med()
    } else {
        bar_high()
    }
}

/// How alarming a bar colour is: 0 calm, 1 elevated, 2 critical.
pub open spec fn severity(c: Color) -> int {
    if c == Color::Rgb(80, 180, 220) {
        0
    } else if c == Color::Rgb(210, 100, 160) {
        1
    } else {
        2
    }
}

/// A higher load never gets a calmer colour.
pub proof fn gauge_color_is_monotone(a: int, b: int)
    requires
        a <= b,
    ensures
        severity(gauge_color_spec(a)) <= severity(gauge_color_spec(b)),
{
}

/// The colour of a process name by its rank in the table: bright for the
/// top three, dim down to rank nine, faint below.
pub open spec fn process_name_color_spec(rank: int) -> Color {
    if rank < 3 {
        Color::Rgb(220, 220, 220)
    } else if rank < 10 {
        Color::Rgb(110, 110, 130)
    } else {
        Color::Rgb(70, 70, 90)
    }
}

/// The colour of a process name by its rank (0 is the top row).
pub fn process_name_color(rank: usize) -> (c: Color)
    ensures
        c == process_name_color_spec(rank as int),
{
    if rank < 3 {
        text()
    } else if rank < 10 {
        text_dim()
    } else {
        text_faint()
    }
}

/// How faded a name colour is: 0 bright, 1 dim, 2 faint.
pub open spec fn fade(c: Color) -> int {
    if c == Color::Rgb(220, 220, 220) {
        0
    } else if c == Color::Rgb(110, 110, 130) {
        1
    } else {
        2
    }
}

/// Names fade as the rank grows, never the other way.
pub proof fn process_names_fade_with_rank(a: int, b: int)
    requires
        a <= b,
    ensures
        fade(process_name_color_spec(a)) <= fade(process_name_color_spec(b)),
{
}

} // verus!

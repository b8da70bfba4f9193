use vstd::prelude::*;
use crate::system::{ActiveProcess, ProcessInfo, SortBy, Trend, LoadAvg, MemData, spec_label};
use crate::text::{decimal, decimal_spec, digit_char, push_char, push_decimal, push_chars,
    chars_of, pad_left, pad_left_spec, pad_right, pad_right_spec, truncate, truncate_name,
    truncate_spec, lemma_decimal_len, lemma_pow10_5};
use crate::theme::{Color, Style, fg, fg_bold, gauge_color, gauge_color_spec, fg_style,
    fg_bold_style, text, gauge_bg, dim_style, selected_style, header_style, border,
    process_name_color, process_name_color_spec, text_highlight, activity_up, activity_down,
    activity_stable};

verus! {

/// A piece of text with the style it is drawn in.
#[derive(Debug, Clone)]
pub struct Span {
    pub text: String,
    pub style: Style,
}

/// `line` holds exactly the given texts, each in the given style.
pub open spec fn line_is(line: Seq<Span>, expected: Seq<(Seq<char>, Style)>) -> bool {
    &&& line.len() == expected.len()
    &&& forall|i: int|
        0 <= i < line.len() ==> (#[trigger] line[i]).text@ == expected[i].0 && line[i].style
            == expected[i].1
}

/// A span of the given text and style.
pub fn span(text: String, style: Style) -> (s: Span)
    ensures
        s.text@ == text@,
        s.style == style,
{
    Span { text, style }
}

/// A span of a literal text.
pub fn span_str(text: &str, style: Style) -> (s: Span)
    ensures
        s.text@ == text@,
        s.style == style,
{
    Span { text: String::from_str(text), style }
}

/// `n` copies of `c`.
pub open spec fn repeat_char(c: char, n: nat) -> Seq<char> {
    Seq::new(n, |i: int| c)
}

/// A string of `n` copies of `c`, as `str::repeat` makes it.
pub fn repeated(c: char, n: usize) -> (s: String)
    ensures
        s@ == repeat_char(c, n as nat),
{
    let mut s = String::new();
    let mut i: usize = 0;
    while i < n
        invariant
            i <= n,
            s@ == repeat_char(c, i as nat),
        decreases n - i,
    {
        push_char(&mut s, c);
        i = i + 1;
        assert(s@ =~= repeat_char(c, i as nat));
    }
    s
}

/// A value in hundredths rounded to tenths, as "units.tenth". An exact tie
/// rounds to the even tenth, as `{:.1}` rounds a value that is exactly such
/// a tie. The value has already been rounded to hundredths, so a value just
/// off a tie (such as 12.2499) shows as if it were the tie.
pub open spec fn fixed1_spec(h: nat) -> Seq<char> {
    let t = h / 10 + (if h % 10 > 5 || (h % 10 == 5 && (h / 10) % 2 == 1) { 1nat } else { 0nat });
    decimal_spec(t / 10) + seq!['.', digit_char((t % 10) as int)]
}

/// A value in hundredths with two decimals, as "units.hundredths".
pub open spec fn fixed2_spec(h: nat) -> Seq<char> {
    decimal_spec(h / 100) + seq!['.', digit_char(((h % 100) / 10) as int), digit_char((h % 10) as int)]
}

fn digit_of(d: u64) -> (c: char)
    requires
        d < 10,
    ensures
        c == digit_char(d as int),
{
    let s = decimal(d);
    assert(decimal_spec(d as nat) == seq![digit_char(d as int)]);
    s.as_str().get_char(0)
}

/// Appends a hundredths value with one decimal, as `{:.1}` writes the value.
pub fn push_fixed1(out: &mut String, h: u64)
    ensures
        final(out)@ == old(out)@ + fixed1_spec(h as nat),
{
    let t: u64 = h / 10 + if h % 10 > 5 || (h % 10 == 5 && (h / 10) % 2 == 1) { 1 } else { 0 };
    push_decimal(out, t / 10);
    push_char(out, '.');
    push_char(out, digit_of(t % 10));
    assert(final(out)@ =~= old(out)@ + fixed1_spec(h as nat));
}

/// Appends a hundredths value with two decimals, as `{:.2}` writes the value.
pub fn push_fixed2(out: &mut String, h: u64)
    ensures
        final(out)@ == old(out)@ + fixed2_spec(h as nat),
{
    push_decimal(out, h / 100);
    push_char(out, '.');
    push_char(out, digit_of((h % 100) / 10));
    push_char(out, digit_of(h % 10));
    assert(final(out)@ =~= old(out)@ + fixed2_spec(h as nat));
}

/// The uptime as days, hours and minutes, leaving out leading zero units.
pub open spec fn uptime_text(secs: nat) -> Seq<char> {
    let days = secs / 86400;
    let hours = (secs % 86400) / 3600;
    let mins = (secs % 3600) / 60;
    if days > 0 {
        decimal_spec(days) + "d "@ + decimal_spec(hours) + "h "@ + decimal_spec(mins) + "m"@
    } else if hours > 0 {
        decimal_spec(hours) + "h "@ + decimal_spec(mins) + "m"@
    } else {
        decimal_spec(mins) + "m"@
    }
}

/// The text for `d` days, `h` hours and `m` minutes: "Xd Yh Zm", "Yh Zm" or
/// "Zm", leaving out leading zero units.
pub open spec fn units_text(d: nat, h: nat, m: nat) -> Seq<char> {
    if d > 0 {
        decimal_spec(d) + "d "@ + decimal_spec(h) + "h "@ + decimal_spec(m) + "m"@
    } else if h > 0 {
        decimal_spec(h) + "h "@ + decimal_spec(m) + "m"@
    } else {
        decimal_spec(m) + "m"@
    }
}

/// The uptime text shows days, hours and minutes that add up to the uptime
/// but the seconds of its last minute, with fewer than 24 hours and fewer
/// than 60 minutes.
pub proof fn uptime_text_adds_up(secs: nat)
    ensures
        exists|d: nat, h: nat, m: nat|
            #![trigger units_text(d, h, m)]
            d * 86400 + h * 3600 + m * 60 + secs % 60 == secs && h < 24 && m < 60 && uptime_text(secs)
                == units_text(d, h, m),
{
    uptime_units_add_up(secs);
    let d = secs / 86400;
    let h = (secs % 86400) / 3600;
    let m = (secs % 3600) / 60;
    assert(uptime_text(secs) == units_text(d, h, m));
}

/// The uptime as "Xd Yh Zm", "Yh Zm" or "Zm".
pub fn format_uptime(secs: u64) -> (s: String)
    ensures
        s@ == uptime_text(secs as nat),
        exists|d: nat, h: nat, m: nat|
            #![trigger units_text(d, h, m)]
            d * 86400 + h * 3600 + m * 60 + secs % 60 == secs && h < 24 && m < 60 && s@ == units_text(
                d,
                h,
                m,
            ),
{
    proof {
        uptime_text_adds_up(secs as nat);
    }
    let days = secs / 86_400;
    let hours = (secs % 86_400) / 3_600;
    let mins = (secs % 3_600) / 60;
    let mut s = String::new();
    if days > 0 {
        push_decimal(&mut s, days);
        s.append("d ");
        push_decimal(&mut s, hours);
        s.append("h ");
        push_decimal(&mut s, mins);
        s.append("m");
    } else if hours > 0 {
        push_decimal(&mut s, hours);
        s.append("h ");
        push_decimal(&mut s, mins);
        s.append("m");
    } else {
        push_decimal(&mut s, mins);
        s.append("m");
    }
    assert(s@ =~= uptime_text(secs as nat));
    s
}

/// The days, hours and minutes shown account for the whole uptime but the
/// seconds of its last minute.
pub proof fn uptime_units_add_up(secs: nat)
    ensures
        (secs / 86400) * 86400 + ((secs % 86400) / 3600) * 3600 + ((secs % 3600) / 60) * 60
            + secs % 60 == secs,
        (secs % 86400) / 3600 < 24,
        (secs % 3600) / 60 < 60,
{
    assert((secs / 86400) * 86400 + secs % 86400 == secs) by (nonlinear_arith);
    assert(((secs % 86400) / 3600) * 3600 + (secs % 86400) % 3600 == secs % 86400) by (nonlinear_arith);
    assert((secs % 86400) % 3600 == secs % 3600) by (nonlinear_arith);
    assert(((secs % 3600) / 60) * 60 + (secs % 3600) % 60 == secs % 3600) by (nonlinear_arith);
    assert((secs % 3600) % 60 == secs % 60) by (nonlinear_arith);
    assert((secs % 86400) / 3600 < 24) by (nonlinear_arith);
    assert((secs % 3600) / 60 < 60) by (nonlinear_arith);
}

/// `used` as a percentage of `total`, rounded to the nearest whole percent
/// (halves up) and capped at `u16::MAX`; 0 when `total` is 0.
pub open spec fn mem_pct_spec(used: nat, total: nat) -> int {
    if total == 0 {
        0
    } else {
        let p = (200 * used + total) / (2 * total);
        if p <= 0xffff { p as int } else { 0xffff }
    }
}

/// The share of `total` that `used` is, as a whole percentage.
pub fn mem_pct(used: u64, total: u64) -> (p: u16)
    ensures
        p == mem_pct_spec(used as nat, total as nat),
{
    if total == 0 {
        0
    } else {
        let q: u128 = (200 * (used as u128) + total as u128) / (2 * (total as u128));
        if q <= 0xffff { q as u16 } else { 0xffff }
    }
}

/// Used memory never shows as more than 100% of the total, and the used and
/// available percentages add up to 100.
pub proof fn mem_percentages_add_up(used: nat, total: nat)
    requires
        used <= total,
    ensures
        0 <= mem_pct_spec(used, total) <= 100,
        total > 0 && used == total ==> mem_pct_spec(used, total) == 100,
        used == 0 ==> mem_pct_spec(used, total) == 0,
{
    if total > 0 {
        assert((200 * used + total) / (2 * total) <= 100) by (nonlinear_arith)
            requires
                used <= total,
                total > 0,
        ;
        if used == total {
            assert((200 * used + total) / (2 * total) == 100) by (nonlinear_arith)
                requires
                    used == total,
                    total > 0,
            ;
        }
        if used == 0 {
            assert((200 * used + total) / (2 * total) == 0) by (nonlinear_arith)
                requires
                    used == 0,
                    total > 0,
            ;
        }
    }
}

/// A value in hundredths of a percent rounded to a whole percent (halves
/// up), capped at `u16::MAX`.
pub open spec fn whole_percent(h: nat) -> int {
    let p = h / 100 + (if h % 100 >= 50 { 1nat } else { 0nat });
    if p <= 0xffff { p as int } else { 0xffff }
}

/// A usage in hundredths of a percent rounded to a whole percent.
pub fn round_percent(h: u32) -> (p: u16)
    ensures
        p == whole_percent(h as nat),
{
    let q: u32 = h / 100 + if h % 100 >= 50 { 1 } else { 0 };
    if q <= 0xffff { q as u16 } else { 0xffff }
}

/// The filled cells of a bar `width` cells wide showing `pct` percent,
/// rounded down and never more than the width.
pub open spec fn filled_cells(width: nat, pct: nat) -> nat {
    let f = width * pct / 100;
    if f <= width { f } else { width }
}

/// The filled cells of a bar.
pub fn bar_filled(width: usize, pct: u16) -> (f: usize)
    requires
        width * pct <= usize::MAX,
    ensures
        f == filled_cells(width as nat, pct as nat),
        f <= width,
{
    let f = width * (pct as usize) / 100;
    if f <= width { f } else { width }
}

/// A bar never has more filled cells than it is wide, and a full bar at 100%.
pub proof fn bar_fill_is_bounded(width: nat, pct: nat)
    ensures
        filled_cells(width, pct) <= width,
        pct >= 100 ==> filled_cells(width, pct) == width,
        pct == 0 ==> filled_cells(width, pct) == 0,
{
    if pct >= 100 {
        assert(width * pct / 100 >= width) by (nonlinear_arith)
            requires
                pct >= 100,
        ;
    }
    if pct == 0 {
        assert(width * pct == 0) by (nonlinear_arith)
            requires
                pct == 0,
        ;
    }
}

/// The spans of a gauge line: a label, the filled cells, the empty cells and
/// a percentage text.
pub open spec fn gauge_line(
    label: (Seq<char>, Style),
    bar_w: nat,
    filled: nat,
    color: Color,
    pct: (Seq<char>, Style),
) -> Seq<(Seq<char>, Style)> {
    seq![
        label,
        (repeat_char('█', filled), fg(color)),
        (repeat_char('░', (bar_w - filled) as nat), fg(Color::Rgb(40, 40, 55))),
        pct,
    ]
}

fn gauge_spans(label: Span, bar_w: usize, filled: usize, color: Color, pct: Span) -> (line: Vec<Span>)
    requires
        filled <= bar_w,
    ensures
        line_is(
            line@,
            gauge_line(
                (label.text@, label.style),
                bar_w as nat,
                filled as nat,
                color,
                (pct.text@, pct.style),
            ),
        ),
{
    let ghost lt = label.text@;
    let ghost ls = label.style;
    let ghost pt = pct.text@;
    let ghost ps = pct.style;
    let mut line: Vec<Span> = Vec::new();
    line.push(label);
    line.push(span(repeated('█', filled), fg_style(color)));
    line.push(span(repeated('░', bar_w - filled), fg_style(gauge_bg())));
    line.push(pct);
    assert(line_is(line@, gauge_line((lt, ls), bar_w as nat, filled as nat, color, (pt, ps))));
    line
}

/// The overall CPU bar of a panel `width` cells wide, or nothing when the
/// panel is narrower than 12 cells.
pub open spec fn overall_bar_spec(total: nat, width: nat) -> Option<Seq<(Seq<char>, Style)>> {
    if width < 12 {
        None
    } else {
        let pct = whole_percent(total);
        let color = gauge_color_spec(total as int);
        let pct_str = seq![' '] + decimal_spec(pct as nat) + seq!['%'];
        let bar_w: nat = if width >= 4 + pct_str.len() { (width - 4 - pct_str.len()) as nat } else { 0 };
        Some(gauge_line(
            ("CPU "@, fg_bold(Color::Rgb(220, 220, 220))),
            bar_w,
            filled_cells(bar_w, pct as nat),
            color,
            (pct_str, fg_bold(color)),
        ))
    }
}

/// The overall CPU usage bar: "CPU ", the bar, and the rounded percentage.
pub fn draw_overall_bar(total_usage: u32, width: u16) -> (line: Option<Vec<Span>>)
    ensures
        match overall_bar_spec(total_usage as nat, width as nat) {
            None => line is None,
            Some(expected) => line is Some && line_is(line->0@, expected),
        },
{
    if width < 12 {
        return None;
    }
    let pct = round_percent(total_usage);
    let color = gauge_color(total_usage as u64);
    let mut pct_str = String::new();
    push_char(&mut pct_str, ' ');
    push_decimal(&mut pct_str, pct as u64);
    push_char(&mut pct_str, '%');
    let pct_len = pct_str.as_str().unicode_len();
    proof {
        lemma_pow10_5();
        lemma_decimal_len(pct as nat, 5);
    }
    let bar_w = (width as usize).saturating_sub(4 + pct_len);
    assert(bar_w * pct <= 0xffff * 0xffff) by (nonlinear_arith)
        requires
            bar_w <= 0xffff,
            pct <= 0xffff,
    ;
    let filled = bar_filled(bar_w, pct);
    let label = span_str("CPU ", fg_bold_style(text()));
    let ghost ps = pct_str@;
    let pct_span = span(pct_str, fg_bold_style(color));
    let line = gauge_spans(label, bar_w, filled, color, pct_span);
    assert(ps == seq![' '] + decimal_spec(whole_percent(total_usage as nat) as nat) + seq!['%']);
    assert(overall_bar_spec(total_usage as nat, width as nat) == Some(gauge_line(
            ("CPU "@, fg_bold(Color::Rgb(220, 220, 220))),
            bar_w as nat,
            filled as nat,
            color,
            (ps, fg_bold(color)),
        )));
    Some(line)
}

/// A percentage right-aligned in three cells and followed by "%".
pub open spec fn pct_field(p: nat) -> Seq<char> {
    pad_left_spec(decimal_spec(p), 3) + seq!['%']
}

fn pct_field_string(p: u16) -> (s: String)
    ensures
        s@ == pct_field(p as nat),
        s@.len() <= 6,
{
    let d = decimal(p as u64);
    let mut s = pad_left(d.as_str(), 3);
    push_char(&mut s, '%');
    proof {
        lemma_pow10_5();
        lemma_decimal_len(p as nat, 5);
    }
    s
}

/// One core's bar in a column `col_width` cells wide, or nothing when the
/// column is narrower than 10 cells.
pub open spec fn core_row_spec(name: Seq<char>, usage: nat, col_width: nat) -> Option<
    Seq<(Seq<char>, Style)>,
> {
    if col_width < 10 {
        None
    } else {
        let pct = whole_percent(usage);
        let color = gauge_color_spec(usage as int);
        let pct_str = pct_field(pct as nat);
        let pct_w = pct_str.len() + 1;
        let room: int = col_width - (4 + pct_w);
        let bar_w: nat = if room >= 1 { room as nat } else { 1 };
        Some(gauge_line(
            (pad_right_spec(name, 3) + seq![' '], fg(Color::Rgb(220, 220, 220))),
            bar_w,
            filled_cells(bar_w, pct as nat),
            color,
            (seq![' '] + pct_str, fg(color)),
        ))
    }
}

/// One core's bar: its name, the bar, and the rounded percentage.
pub fn draw_core_row(name: &str, usage: u32, col_width: u16) -> (line: Option<Vec<Span>>)
    ensures
        match core_row_spec(name@, usage as nat, col_width as nat) {
            None => line is None,
            Some(expected) => line is Some && line_is(line->0@, expected),
        },
{
    if col_width < 10 {
        return None;
    }
    let pct = round_percent(usage);
    let color = gauge_color(usage as u64);
    let pct_str = pct_field_string(pct);
    let pct_w = pct_str.as_str().unicode_len() + 1;
    let room = (col_width as usize).saturating_sub(4 + pct_w);
    let bar_w = if room >= 1 { room } else { 1 };
    assert(bar_w * pct <= 0xffff * 0xffff) by (nonlinear_arith)
        requires
            bar_w <= 0xffff,
            pct <= 0xffff,
    ;
    let filled = bar_filled(bar_w, pct);
    let mut label = pad_right(name, 3);
    push_char(&mut label, ' ');
    let mut tail = String::new();
    push_char(&mut tail, ' ');
    let pcs = chars_of(pct_str.as_str());
    push_chars(&mut tail, &pcs);
    let ghost lt = label@;
    let ghost tt = tail@;
    let line = gauge_spans(span(label, fg_style(text())), bar_w, filled, color, span(tail, fg_style(color)));
    assert(tt =~= seq![' '] + pct_field(whole_percent(usage as nat) as nat));
    assert(lt =~= pad_right_spec(name@, 3) + seq![' ']);
    assert(pct_w == pct_field(whole_percent(usage as nat) as nat).len() + 1);
    assert(color == gauge_color_spec(usage as int));
    assert(core_row_spec(name@, usage as nat, col_width as nat) == Some(gauge_line(
            (lt, fg(Color::Rgb(220, 220, 220))),
            bar_w as nat,
            filled as nat,
            color,
            (tt, fg(color)),
        )));
    Some(line)
}

/// A memory bar labelled `label` in a panel `width` cells wide, or nothing
/// when the panel is narrower than 10 cells. The label's width counts its
/// bytes.
pub open spec fn mem_bar_spec(label: Seq<char>, label_bytes: nat, pct: nat, width: nat) -> Option<
    Seq<(Seq<char>, Style)>,
> {
    if width < 10 {
        None
    } else {
        let color = gauge_color_spec((pct * 100) as int);
        let pct_str = pct_field(pct);
        let label_w = label_bytes + 1;
        let pct_w = pct_str.len() + 1;
        let room: int = width - (label_w + pct_w);
        let bar_w: nat = if room >= 1 { room as nat } else { 1 };
        Some(gauge_line(
            (label + seq![' '], fg_bold(Color::Rgb(220, 220, 220))),
            bar_w,
            filled_cells(bar_w, pct),
            color,
            (seq![' '] + pct_str, fg(color)),
        ))
    }
}

/// A memory bar: the label, the bar, and the percentage.
pub fn draw_bar(label: &str, pct: u16, width: u16) -> (line: Option<Vec<Span>>)
    requires
        label.len() + 8 <= usize::MAX,
    ensures
        match mem_bar_spec(label@, label.len() as nat, pct as nat, width as nat) {
            None => line is None,
            Some(expected) => line is Some && line_is(line->0@, expected),
        },
{
    if width < 10 {
        return None;
    }
    let color = gauge_color(pct as u64 * 100);
    let pct_str = pct_field_string(pct);
    let label_w = label.len() + 1;
    let pct_w = pct_str.as_str().unicode_len() + 1;
    let room = (width as usize).saturating_sub(label_w + pct_w);
    let bar_w = if room >= 1 { room } else { 1 };
    assert(bar_w * pct <= 0xffff * 0xffff) by (nonlinear_arith)
        requires
            bar_w <= 0xffff,
            pct <= 0xffff,
    ;
    let filled = bar_filled(bar_w, pct);
    let mut head = String::from_str(label);
    push_char(&mut head, ' ');
    let mut tail = String::new();
    push_char(&mut tail, ' ');
    let pcs = chars_of(pct_str.as_str());
    push_chars(&mut tail, &pcs);
    let ghost ht = head@;
    let ghost tt = tail@;
    let line = gauge_spans(span(head, fg_bold_style(text())), bar_w, filled, color, span(tail, fg_style(color)));
    assert(tt =~= seq![' '] + pct_field(pct as nat));
    assert(ht =~= label@ + seq![' ']);
    assert(pct_w == pct_field(pct as nat).len() + 1);
    assert(color == gauge_color_spec((pct * 100) as int));
    assert(mem_bar_spec(label@, label.len() as nat, pct as nat, width as nat) == Some(gauge_line(
            (ht, fg_bold(Color::Rgb(220, 220, 220))),
            bar_w as nat,
            filled as nat,
            color,
            (tt, fg(color)),
        )));
    Some(line)
}

/// The arrow and colour of a trend: red up, green down, grey level.
pub open spec fn trend_mark(t: Trend) -> (Seq<char>, Color) {
    match t {
        Trend::Rising => ("▲"@, Color::Rgb(220, 80, 100)),
        Trend::Falling => ("▼"@, Color::Rgb(80, 200, 160)),
        Trend::Stable => ("─"@, Color::Rgb(100, 100, 120)),
    }
}

/// The colour of a change: red when rising, green when falling, grey when
/// level.
pub open spec fn delta_color_spec(delta: int) -> Color {
    if delta > 0 {
        Color::Rgb(220, 80, 100)
    } else if delta < 0 {
        Color::Rgb(80, 200, 160)
    } else {
        Color::Rgb(100, 100, 120)
    }
}

/// The colour of a change of CPU usage.
pub fn delta_color(delta: i64) -> (c: Color)
    ensures
        c == delta_color_spec(delta as int),
{
    if delta > 0 {
        activity_up()
    } else if delta < 0 {
        activity_down()
    } else {
        activity_stable()
    }
}

/// A signed change in hundredths with one decimal and an explicit sign:
/// "+x.y" or "-x.y".
pub open spec fn signed_fixed1(delta: int) -> Seq<char> {
    if delta >= 0 {
        seq!['+'] + fixed1_spec(delta as nat)
    } else {
        seq!['-'] + fixed1_spec((-delta) as nat)
    }
}

/// The two lines of an activity entry: the trend arrow and name, then the
/// usage and the change.
pub open spec fn entry_spec(a: ActiveProcess) -> (Seq<(Seq<char>, Style)>, Seq<(Seq<char>, Style)>) {
    let (arrow, color) = trend_mark(a.trend);
    (
        seq![
            (arrow + seq![' '], fg(color)),
            (truncate_spec(a.name@, 16), fg(Color::Rgb(220, 220, 220))),
        ],
        seq![
            ("  CPU: "@, fg(Color::Rgb(110, 110, 130))),
            (fixed1_spec(a.cpu_percent as nat) + seq!['%'], fg(color)),
            (seq![' ', '('] + signed_fixed1(a.delta as int) + seq!['%', ')'], fg(
                delta_color_spec(a.delta as int),
            )),
        ],
    )
}

/// The two lines that show one entry of the activity sidebar.
pub fn draw_entry(a: &ActiveProcess) -> (lines: (Vec<Span>, Vec<Span>))
    ensures
        line_is(lines.0@, entry_spec(*a).0),
        line_is(lines.1@, entry_spec(*a).1),
{
    let color = match a.trend {
        Trend::Rising => activity_up(),
        Trend::Falling => activity_down(),
        Trend::Stable => activity_stable(),
    };
    let mut head = match a.trend {
        Trend::Rising => String::from_str("▲"),
        Trend::Falling => String::from_str("▼"),
        Trend::Stable => String::from_str("─"),
    };
    push_char(&mut head, ' ');
    let mut first: Vec<Span> = Vec::new();
    let ghost ht = head@;
    first.push(span(head, fg_style(color)));
    let name = truncate_name(a.name.as_str(), 16);
    let ghost nt = name@;
    first.push(span(name, fg_style(text())));
    let mut usage = String::new();
    push_fixed1(&mut usage, a.cpu_percent as u64);
    push_char(&mut usage, '%');
    let mut change = String::new();
    push_char(&mut change, ' ');
    push_char(&mut change, '(');
    if a.delta >= 0 {
        push_char(&mut change, '+');
        push_fixed1(&mut change, a.delta as u64);
    } else {
        push_char(&mut change, '-');
        let magnitude: i128 = -(a.delta as i128);
        push_fixed1(&mut change, magnitude as u64);
    }
    push_char(&mut change, '%');
    push_char(&mut change, ')');
    let ghost ut = usage@;
    let ghost ct = change@;
    let mut second: Vec<Span> = Vec::new();
    second.push(span_str("  CPU: ", dim_style()));
    second.push(span(usage, fg_style(color)));
    second.push(span(change, fg_style(delta_color(a.delta))));
    let ghost (arrow, mark_color) = trend_mark(a.trend);
    assert(ht =~= arrow + seq![' ']);
    assert(ut =~= fixed1_spec(a.cpu_percent as nat) + seq!['%']);
    assert(ct =~= seq![' ', '('] + signed_fixed1(a.delta as int) + seq!['%', ')']);
    (first, second)
}

/// How many activity entries of two lines each fit in `height` lines.
pub fn visible_entries(count: usize, height: u16) -> (n: usize)
    ensures
        n == (if count <= (height / 2) as usize { count } else { (height / 2) as usize }),
{
    let fit = (height / 2) as usize;
    if count <= fit { count } else { fit }
}

/// The process row at `rank` of the table, with `mem_text` the human-readable
/// memory size. The selected row is highlighted; otherwise names fade with
/// rank and the CPU column takes the gauge colour of its load.
pub open spec fn row_spec(rank: nat, p: ProcessInfo, selected: nat, mem_text: Seq<char>) -> Seq<
    (Seq<char>, Style),
> {
    let is_sel = rank == selected;
    let sel = Style {
        fg: Some(Color::Rgb(255, 220, 255)),
        bg: Some(Color::Rgb(80, 60, 100)),
        bold: true,
        underlined: false,
    };
    let dim = fg(Color::Rgb(110, 110, 130));
    let other = if is_sel { sel } else { dim };
    let cpu_color = if is_sel {
        Color::Rgb(255, 220, 255)
    } else {
        gauge_color_spec(p.cpu_percent as int)
    };
    seq![
        (decimal_spec(p.pid as nat), other),
        (truncate_spec(p.name@, 18), if is_sel { sel } else { fg(process_name_color_spec(rank as int)) }),
        (fixed1_spec(p.cpu_percent as nat) + seq!['%'], fg(cpu_color)),
        (mem_text, other),
        (p.status@, other),
        (truncate_spec(p.user@, 7), other),
    ]
}

/// The cells of one process row.
pub fn build_row(rank: usize, p: &ProcessInfo, selected: usize, mem_text: &str) -> (row: Vec<Span>)
    ensures
        line_is(row@, row_spec(rank as nat, *p, selected as nat, mem_text@)),
{
    let is_sel = rank == selected;
    let other = if is_sel { selected_style() } else { dim_style() };
    let name_style = if is_sel { selected_style() } else { fg_style(process_name_color(rank)) };
    let cpu_color = if is_sel { text_highlight() } else { gauge_color(p.cpu_percent as u64) };
    let mut cpu = String::new();
    push_fixed1(&mut cpu, p.cpu_percent as u64);
    push_char(&mut cpu, '%');
    let ghost ct = cpu@;
    let mut row: Vec<Span> = Vec::new();
    row.push(span(decimal(p.pid as u64), other));
    row.push(span(truncate(p.name.as_str(), 18), name_style));
    row.push(span(cpu, fg_style(cpu_color)));
    row.push(span_str(mem_text, other));
    row.push(span(p.status.clone(), other));
    row.push(span(truncate(p.user.as_str(), 7), other));
    assert(ct =~= fixed1_spec(p.cpu_percent as nat) + seq!['%']);
    row
}

/// A column header: the label marked with a triangle in the border colour
/// when the table is sorted by that column, else in the header style.
pub open spec fn header_spec(label: Seq<char>, column: SortBy, active: SortBy) -> (Seq<char>, Style) {
    if column == active {
        (label + " ▲"@, fg_bold(Color::Rgb(100, 160, 200)))
    } else {
        (label, fg_bold(Color::Rgb(220, 220, 220)))
    }
}

/// The header cell of a column.
pub fn make_header(label: &str, column: SortBy, active: SortBy) -> (cell: Span)
    ensures
        (cell.text@, cell.style) == header_spec(label@, column, active),
{
    if column == active {
        let mut t = String::from_str(label);
        t.append(" ▲");
        span(t, fg_bold_style(border()))
    } else {
        span_str(label, header_style())
    }
}

/// The title of the process table.
pub open spec fn processes_title_spec(total: nat, by: SortBy) -> Seq<char> {
    " PROCESSES ("@ + decimal_spec(total) + ")  sort:"@ + spec_label(by) + " "@
}

/// The title of the process table: the row count and the sort column.
pub fn processes_title(total: usize, by: SortBy) -> (t: String)
    ensures
        t@ == processes_title_spec(total as nat, by),
{
    let mut t = String::from_str(" PROCESSES (");
    push_decimal(&mut t, total as u64);
    t.append(")  sort:");
    t.append(by.label());
    t.append(" ");
    t
}

/// The title of the CPU panel.
pub fn cpu_title(brand: &str) -> (t: String)
    ensures
        t@ == " CPU ─ "@ + brand@ + " "@,
{
    let mut t = String::from_str(" CPU ─ ");
    t.append(brand);
    t.append(" ");
    t
}

/// The help text of the status bar: exactly the keys the app acts on
/// (arrows and Ctrl+N/Ctrl+P, Page Up/Down, Home/End, and Ctrl+C to quit).
pub open spec fn help_text() -> Seq<char> {
    " [↑↓/^N^P]Nav  [PgUp/PgDn]Page  [Home/End]Top/Bot  [^C]Quit "@
}

/// The status bar: uptime, sort column and help, separated by bars.
pub open spec fn status_spec(uptime_secs: nat, by: SortBy) -> Seq<(Seq<char>, Style)> {
    seq![
        (" up "@ + uptime_text(uptime_secs) + " "@, fg(Color::Rgb(110, 110, 130))),
        ("│"@, fg(Color::DarkGray)),
        (" sort:"@ + spec_label(by) + " "@, fg(Color::Cyan)),
        ("│"@, fg(Color::DarkGray)),
        (help_text(), fg(Color::DarkGray)),
    ]
}

/// The spans of the status bar.
pub fn draw_status_bar(uptime_secs: u64, by: SortBy) -> (line: Vec<Span>)
    ensures
        line_is(line@, status_spec(uptime_secs as nat, by)),
{
    let mut up = String::from_str(" up ");
    up.append(format_uptime(uptime_secs).as_str());
    up.append(" ");
    let mut sort = String::from_str(" sort:");
    sort.append(by.label());
    sort.append(" ");
    let mut line: Vec<Span> = Vec::new();
    line.push(span(up, dim_style()));
    line.push(span_str("│", fg_style(Color::DarkGray)));
    line.push(span(sort, fg_style(Color::Cyan)));
    line.push(span_str("│", fg_style(Color::DarkGray)));
    line.push(span_str(
        " [↑↓/^N^P]Nav  [PgUp/PgDn]Page  [Home/End]Top/Bot  [^C]Quit ",
        fg_style(Color::DarkGray),
    ));
    line
}

/// The load-average footer: the core count when all three averages are
/// zero, else the three averages with two decimals; right-aligned in the
/// panel's width. The averages are in hundredths, so a load below 0.005
/// counts as zero here.
pub open spec fn load_avg_spec(load: LoadAvg, cores: nat, width: nat) -> Seq<char> {
    let t = if load.one == 0 && load.five == 0 && load.fifteen == 0 {
        "Cores: "@ + decimal_spec(cores)
    } else {
        "Load avg: "@ + fixed2_spec(load.one as nat) + "  "@ + fixed2_spec(load.five as nat) + "  "@
            + fixed2_spec(load.fifteen as nat)
    };
    pad_left_spec(t, width)
}

/// The load-average footer text.
pub fn draw_load_avg(load: LoadAvg, cores: usize, width: u16) -> (t: String)
    ensures
        t@ == load_avg_spec(load, cores as nat, width as nat),
{
    let mut s = String::new();
    if load.one == 0 && load.five == 0 && load.fifteen == 0 {
        s.append("Cores: ");
        push_decimal(&mut s, cores as u64);
    } else {
        s.append("Load avg: ");
        push_fixed2(&mut s, load.one as u64);
        s.append("  ");
        push_fixed2(&mut s, load.five as u64);
        s.append("  ");
        push_fixed2(&mut s, load.fifteen as u64);
    }
    pad_left(s.as_str(), width as usize)
}

/// The sparkline's points: each sample as a whole percent, rounded down.
pub fn sparkline_data(history: &Vec<u32>) -> (data: Vec<u64>)
    ensures
        data@.len() == history@.len(),
        forall|i: int| 0 <= i < data@.len() ==> #[trigger] data@[i] == history@[i] / 100,
{
    let mut data: Vec<u64> = Vec::new();
    let mut i: usize = 0;
    while i < history.len()
        invariant
            i <= history@.len(),
            data@.len() == i,
            forall|k: int| 0 <= k < i ==> #[trigger] data@[k] == history@[k] / 100,
        decreases history.len() - i,
    {
        data.push((history[i] / 100) as u64);
        i = i + 1;
    }
    data
}

/// The cores shown in column `col` (0 or 1) of the two-column grid: the
/// first column takes the first half, rounded up, the second the rest.
pub open spec fn core_column_spec(count: nat, col: nat) -> (nat, nat) {
    let half = count / 2 + count % 2;
    let start = if col == 0 { 0 } else { half };
    let end = if start + half <= count { start + half } else { count };
    (start, end)
}

/// The range of cores shown in one column of the core grid.
pub fn core_column(count: usize, col: usize) -> (range: (usize, usize))
    requires
        col < 2,
    ensures
        range.0 == core_column_spec(count as nat, col as nat).0,
        range.1 == core_column_spec(count as nat, col as nat).1,
{
    let half = count / 2 + count % 2;
    let start = if col == 0 { 0 } else { half };
    let end = if start <= count && half <= count - start { start + half } else { count };
    (start, end)
}

/// The two columns of the core grid show every core exactly once, in order,
/// and the first column is never shorter than the second.
pub proof fn core_columns_partition(count: nat)
    ensures
        core_column_spec(count, 0).0 == 0,
        core_column_spec(count, 0).1 == core_column_spec(count, 1).0 || count == 0,
        core_column_spec(count, 1).1 == count,
        core_column_spec(count, 0).1 - core_column_spec(count, 0).0 >= core_column_spec(count, 1).1
            - core_column_spec(count, 1).0,
{
}

/// The grid of cores is drawn only when there are cores and room for it.
pub fn core_grid_visible(cores: usize, height: u16, width: u16) -> (v: bool)
    ensures
        v == (cores > 0 && height > 0 && width >= 10),
{
    !(cores == 0 || height == 0 || width < 10)
}

/// The figures of the memory panel's text and their colours.
pub struct MemStats {
    pub used_pct: u16,
    pub avail_pct: u16,
    pub used_color: Color,
    pub avail_color: Color,
}

/// The used share of memory, the remainder to 100, and their gauge colours.
pub fn mem_stats(mem: &MemData) -> (st: MemStats)
    ensures
        st.used_pct == mem_pct_spec(mem.used_bytes as nat, mem.total_bytes as nat),
        st.avail_pct == (if st.used_pct <= 100 { 100 - st.used_pct } else { 0 }),
        st.used_color == gauge_color_spec(st.used_pct * 100),
        st.avail_color == gauge_color_spec(st.avail_pct * 100),
{
    let used_pct = mem_pct(mem.used_bytes, mem.total_bytes);
    let avail_pct = 100u16.saturating_sub(used_pct);
    MemStats {
        used_pct,
        avail_pct,
        used_color: gauge_color(used_pct as u64 * 100),
        avail_color: gauge_color(avail_pct as u64 * 100),
    }
}

/// Human-readable sizes of the memory figures.
pub struct MemTexts {
    pub total: String,
    pub used: String,
    pub available: String,
    pub swap_used: String,
    pub swap_total: String,
}

/// The four lines of the memory panel's text.
pub open spec fn stat_lines_spec(st: MemStats, h: MemTexts) -> Seq<Seq<(Seq<char>, Style)>> {
    let dim = fg(Color::Rgb(110, 110, 130));
    let txt = Color::Rgb(220, 220, 220);
    seq![
        seq![("Total:  "@, dim), (h.total@, fg_bold(txt))],
        seq![
            ("Used:   "@, dim),
            (h.used@, fg_bold(st.used_color)),
            ("  "@ + decimal_spec(st.used_pct as nat) + "%"@, fg(st.used_color)),
        ],
        seq![
            ("Avail:  "@, dim),
            (h.available@, fg(txt)),
            ("  "@ + decimal_spec(st.avail_pct as nat) + "%"@, fg(st.avail_color)),
        ],
        seq![("Swap:   "@, dim), (h.swap_used@ + " / "@ + h.swap_total@, fg(txt))],
    ]
}

/// The memory panel's lines show, after their labels, the total size; the
/// used size and its percentage; the available size and its percentage; and
/// the swap used, " / ", then the swap total.
pub proof fn memory_lines_show_figures(st: MemStats, h: MemTexts)
    ensures
        stat_lines_spec(st, h).len() == 4,
        stat_lines_spec(st, h)[0].len() == 2 && stat_lines_spec(st, h)[0][1].0 == h.total@,
        stat_lines_spec(st, h)[1].len() == 3 && stat_lines_spec(st, h)[1][1].0 == h.used@,
        stat_lines_spec(st, h)[1][2].0 == "  "@ + decimal_spec(st.used_pct as nat) + "%"@,
        stat_lines_spec(st, h)[2].len() == 3 && stat_lines_spec(st, h)[2][1].0 == h.available@,
        stat_lines_spec(st, h)[2][2].0 == "  "@ + decimal_spec(st.avail_pct as nat) + "%"@,
        stat_lines_spec(st, h)[3].len() == 2,
        stat_lines_spec(st, h)[3][1].0 == h.swap_used@ + " / "@ + h.swap_total@,
{
}

/// The memory panel's text, given the figures and their human-readable sizes.
pub fn draw_stats(st: &MemStats, h: &MemTexts) -> (lines: Vec<Vec<Span>>)
    ensures
        lines@.len() == 4,
        forall|i: int| 0 <= i < 4 ==> line_is(#[trigger] lines@[i]@, stat_lines_spec(*st, *h)[i]),
        lines@[0]@.len() == 2 && lines@[0]@[1].text@ == h.total@,
        lines@[1]@.len() == 3 && lines@[1]@[1].text@ == h.used@,
        lines@[1]@[2].text@ == "  "@ + decimal_spec(st.used_pct as nat) + "%"@,
        lines@[2]@.len() == 3 && lines@[2]@[1].text@ == h.available@,
        lines@[2]@[2].text@ == "  "@ + decimal_spec(st.avail_pct as nat) + "%"@,
        lines@[3]@.len() == 2 && lines@[3]@[1].text@ == h.swap_used@ + " / "@ + h.swap_total@,
{
    let mut used = String::from_str("  ");
    push_decimal(&mut used, st.used_pct as u64);
    used.append("%");
    let mut avail = String::from_str("  ");
    push_decimal(&mut avail, st.avail_pct as u64);
    avail.append("%");
    let mut swap = h.swap_used.clone();
    swap.append(" / ");
    swap.append(h.swap_total.as_str());
    let mut l0: Vec<Span> = Vec::new();
    l0.push(span_str("Total:  ", dim_style()));
    l0.push(span(h.total.clone(), fg_bold_style(text())));
    let mut l1: Vec<Span> = Vec::new();
    l1.push(span_str("Used:   ", dim_style()));
    l1.push(span(h.used.clone(), fg_bold_style(st.used_color)));
    l1.push(span(used, fg_style(st.used_color)));
    let mut l2: Vec<Span> = Vec::new();
    l2.push(span_str("Avail:  ", dim_style()));
    l2.push(span(h.available.clone(), fg_style(text())));
    l2.push(span(avail, fg_style(st.avail_color)));
    let mut l3: Vec<Span> = Vec::new();
    l3.push(span_str("Swap:   ", dim_style()));
    l3.push(span(swap, fg_style(text())));
    let mut lines: Vec<Vec<Span>> = Vec::new();
    lines.push(l0);
    lines.push(l1);
    lines.push(l2);
    lines.push(l3);
    lines
}

} // verus!

use dashboard::system::{ActiveProcess, LoadAvg, MemData, ProcessInfo, SortBy, Trend};
use dashboard::theme::{
    border_style, default_style, dim_style, faint_style, gauge_color, header_style,
    process_name_color, selected_style, title_style, Color, Style,
};
use dashboard::ui::{
    build_row, core_column, core_grid_visible, draw_core_row, cpu_title, delta_color, draw_bar,
    draw_entry, draw_load_avg, draw_stats, draw_status_bar, format_uptime, make_header,
    mem_pct, mem_stats, draw_overall_bar, processes_title, round_percent, sparkline_data,
    visible_entries, MemTexts, Span,
};

fn texts(line: &[Span]) -> Vec<String> {
    line.iter().map(|s| s.text.clone()).collect()
}

fn fg(c: Color) -> Style {
    Style { fg: Some(c), bg: None, bold: false, underlined: false }
}

fn fg_bold(c: Color) -> Style {
    Style { fg: Some(c), bg: None, bold: true, underlined: false }
}

#[test]
fn uptime_formats() {
    assert_eq!(format_uptime(0), "0m");
    assert_eq!(format_uptime(59), "0m");
    assert_eq!(format_uptime(61), "1m");
    assert_eq!(format_uptime(3600), "1h 0m");
    assert_eq!(format_uptime(7325), "2h 2m");
    assert_eq!(format_uptime(86_400), "1d 0h 0m");
    assert_eq!(format_uptime(90_061), "1d 1h 1m");
}

#[test]
fn memory_percentages() {
    assert_eq!(mem_pct(0, 0), 0);
    assert_eq!(mem_pct(50, 100), 50);
    assert_eq!(mem_pct(1, 3), 33);
    assert_eq!(mem_pct(2, 3), 67);
    assert_eq!(mem_pct(1, 200), 1);
    assert_eq!(mem_pct(100, 100), 100);
    assert_eq!(mem_pct(u64::MAX, 1), u16::MAX);
}

#[test]
fn whole_percent_rounding() {
    assert_eq!(round_percent(0), 0);
    assert_eq!(round_percent(4949), 49);
    assert_eq!(round_percent(4950), 50);
    assert_eq!(round_percent(10000), 100);
}

#[test]
fn gauge_colors_by_load() {
    assert_eq!(gauge_color(0), Color::Rgb(80, 180, 220));
    assert_eq!(gauge_color(4999), Color::Rgb(80, 180, 220));
    assert_eq!(gauge_color(5000), Color::Rgb(210, 100, 160));
    assert_eq!(gauge_color(7999), Color::Rgb(210, 100, 160));
    assert_eq!(gauge_color(8000), Color::Rgb(220, 50, 80));
}

#[test]
fn names_fade_by_rank() {
    assert_eq!(process_name_color(0), Color::Rgb(220, 220, 220));
    assert_eq!(process_name_color(2), Color::Rgb(220, 220, 220));
    assert_eq!(process_name_color(3), Color::Rgb(110, 110, 130));
    assert_eq!(process_name_color(9), Color::Rgb(110, 110, 130));
    assert_eq!(process_name_color(10), Color::Rgb(70, 70, 90));
}

#[test]
fn styles() {
    assert_eq!(default_style(), fg(Color::Rgb(220, 220, 220)));
    assert_eq!(header_style(), fg_bold(Color::Rgb(220, 220, 220)));
    assert_eq!(dim_style(), fg(Color::Rgb(110, 110, 130)));
    assert_eq!(faint_style(), fg(Color::Rgb(70, 70, 90)));
    assert_eq!(border_style(), fg(Color::Rgb(100, 160, 200)));
    assert_eq!(title_style(), fg_bold(Color::Rgb(220, 220, 255)));
    assert_eq!(
        selected_style(),
        Style { fg: Some(Color::Rgb(255, 220, 255)), bg: Some(Color::Rgb(80, 60, 100)), bold: true, underlined: false }
    );
}

#[test]
fn overall_bar() {
    assert!(draw_overall_bar(5000, 11).is_none());
    let line = draw_overall_bar(5000, 20).unwrap();
    // " 50%" is 4 wide, so the bar is 20 - 4 - 4 = 12 cells, half of them filled
    assert_eq!(texts(&line), vec!["CPU ".to_string(), "█".repeat(6), "░".repeat(6), " 50%".to_string()]);
    assert_eq!(line[1].style, fg(Color::Rgb(210, 100, 160)));
    assert_eq!(line[2].style, fg(Color::Rgb(40, 40, 55)));
    assert_eq!(line[3].style, fg_bold(Color::Rgb(210, 100, 160)));
}

#[test]
fn core_row() {
    assert!(draw_core_row("C0", 0, 9).is_none());
    let line = draw_core_row("C1", 2549, 20).unwrap();
    // "C1  " label, " 25%" field of 4 plus a space: bar of 20 - 4 - 5 = 11 cells
    assert_eq!(texts(&line), vec!["C1  ".to_string(), "█".repeat(2), "░".repeat(9), "  25%".to_string()]);
    let narrow = draw_core_row("C10", 10000, 10).unwrap();
    assert_eq!(texts(&narrow), vec!["C10 ".to_string(), "█".repeat(1), "".to_string(), " 100%".to_string()]);
}

#[test]
fn memory_bar() {
    assert!(draw_bar("RAM ", 40, 9).is_none());
    let line = draw_bar("RAM ", 40, 25).unwrap();
    // label 5 wide, " 40%" plus a space 5 wide: bar of 15 cells, 6 filled
    assert_eq!(texts(&line), vec!["RAM  ".to_string(), "█".repeat(6), "░".repeat(9), "  40%".to_string()]);
    assert_eq!(line[0].style, fg_bold(Color::Rgb(220, 220, 220)));
}

#[test]
fn load_average_footer() {
    assert_eq!(draw_load_avg(LoadAvg { one: 0, five: 0, fifteen: 0 }, 8, 10), "  Cores: 8");
    assert_eq!(
        draw_load_avg(LoadAvg { one: 123, five: 50, fifteen: 7 }, 8, 0),
        "Load avg: 1.23  0.50  0.07"
    );
}

#[test]
fn sparkline_points() {
    assert_eq!(sparkline_data(&vec![0, 99, 100, 5050]), vec![0, 0, 1, 50]);
}

#[test]
fn core_grid_columns() {
    assert_eq!(core_column(5, 0), (0, 3));
    assert_eq!(core_column(5, 1), (3, 5));
    assert_eq!(core_column(4, 1), (2, 4));
    assert_eq!(core_column(0, 0), (0, 0));
    assert_eq!(core_column(1, 1), (1, 1));
    assert!(core_grid_visible(4, 3, 10));
    assert!(!core_grid_visible(0, 3, 10));
    assert!(!core_grid_visible(4, 0, 10));
    assert!(!core_grid_visible(4, 3, 9));
}

#[test]
fn activity_entry_lines() {
    let a = ActiveProcess {
        pid: 9,
        name: "a-very-long-process-name".to_string(),
        cpu_percent: 1234,
        mem_bytes: 0,
        trend: Trend::Rising,
        delta: 655,
    };
    let (first, second) = draw_entry(&a);
    assert_eq!(texts(&first), vec!["▲ ".to_string(), "a-very-long-pro…".to_string()]);
    assert_eq!(texts(&second), vec!["  CPU: ".to_string(), "12.3%".to_string(), " (+6.6%)".to_string()]);
    assert_eq!(first[0].style, fg(Color::Rgb(220, 80, 100)));
    let b = ActiveProcess { trend: Trend::Falling, delta: -720, cpu_percent: 50, ..a };
    let (first, second) = draw_entry(&b);
    assert_eq!(first[0].text, "▼ ");
    assert_eq!(first[0].style, fg(Color::Rgb(80, 200, 160)));
    assert_eq!(second[2].text, " (-7.2%)");
    assert_eq!(second[2].style, fg(Color::Rgb(80, 200, 160)));
}

#[test]
fn delta_colors() {
    assert_eq!(delta_color(1), Color::Rgb(220, 80, 100));
    assert_eq!(delta_color(-1), Color::Rgb(80, 200, 160));
    assert_eq!(delta_color(0), Color::Rgb(100, 100, 120));
}

#[test]
fn entries_that_fit() {
    assert_eq!(visible_entries(8, 10), 5);
    assert_eq!(visible_entries(3, 10), 3);
    assert_eq!(visible_entries(3, 1), 0);
}

#[test]
fn process_rows() {
    let p = ProcessInfo {
        pid: 4242,
        name: "firefox-with-a-long-name".to_string(),
        cpu_percent: 5555,
        mem_bytes: 1,
        status: "Run".to_string(),
        user: "123456789".to_string(),
    };
    let r = build_row(4, &p, 0, "1 GB");
    assert_eq!(
        texts(&r),
        vec!["4242", "firefox-with-a-lo…", "55.6%", "1 GB", "Run", "123456…"]
            .into_iter()
            .map(|s| s.to_string())
            .collect::<Vec<String>>()
    );
    assert_eq!(r[0].style, fg(Color::Rgb(110, 110, 130)));
    assert_eq!(r[1].style, fg(Color::Rgb(110, 110, 130)));
    assert_eq!(r[2].style, fg(Color::Rgb(210, 100, 160)));
    let sel = build_row(4, &p, 4, "1 GB");
    assert_eq!(sel[0].style, selected_style());
    assert_eq!(sel[1].style, selected_style());
    assert_eq!(sel[2].style, fg(Color::Rgb(255, 220, 255)));
}

#[test]
fn headers_and_titles() {
    let h = make_header("CPU%", SortBy::Cpu, SortBy::Cpu);
    assert_eq!(h.text, "CPU% ▲");
    assert_eq!(h.style, fg_bold(Color::Rgb(100, 160, 200)));
    let other = make_header("PID", SortBy::Pid, SortBy::Cpu);
    assert_eq!(other.text, "PID");
    assert_eq!(other.style, header_style());
    assert_eq!(processes_title(12, SortBy::Name), " PROCESSES (12)  sort:NAME ");
    assert_eq!(cpu_title("Ryzen"), " CPU ─ Ryzen ");
}

#[test]
fn status_bar() {
    let line = draw_status_bar(3660, SortBy::Memory);
    assert_eq!(line.len(), 5);
    assert_eq!(line[0].text, " up 1h 1m ");
    assert_eq!(line[1].text, "│");
    assert_eq!(line[2].text, " sort:MEM ");
    assert_eq!(line[2].style, fg(Color::Cyan));
    assert_eq!(line[3].style, fg(Color::DarkGray));
    assert_eq!(line[4].text, " [↑↓/^N^P]Nav  [PgUp/PgDn]Page  [Home/End]Top/Bot  [^C]Quit ");
}

#[test]
fn tenths_round_ties_to_even() {
    let mk = |cpu: u32| ProcessInfo {
        pid: 1,
        name: "p".to_string(),
        cpu_percent: cpu,
        mem_bytes: 0,
        status: "Run".to_string(),
        user: "0".to_string(),
    };
    assert_eq!(build_row(0, &mk(1225), 0, "")[2].text, "12.2%");
    assert_eq!(build_row(0, &mk(1235), 0, "")[2].text, "12.4%");
    assert_eq!(build_row(0, &mk(1226), 0, "")[2].text, "12.3%");
    assert_eq!(build_row(0, &mk(1224), 0, "")[2].text, "12.2%");
    assert_eq!(format!("{:.1}", 12.25f64), "12.2");
}

#[test]
fn memory_text() {
    let mem = MemData { total_bytes: 1000, used_bytes: 850, available_bytes: 150, swap_total_bytes: 0, swap_used_bytes: 0 };
    let st = mem_stats(&mem);
    assert_eq!(st.used_pct, 85);
    assert_eq!(st.avail_pct, 15);
    assert_eq!(st.used_color, Color::Rgb(220, 50, 80));
    assert_eq!(st.avail_color, Color::Rgb(80, 180, 220));
    let h = MemTexts {
        total: "1 KB".to_string(),
        used: "850 B".to_string(),
        available: "150 B".to_string(),
        swap_used: "0 B".to_string(),
        swap_total: "0 B".to_string(),
    };
    let lines = draw_stats(&st, &h);
    assert_eq!(lines.len(), 4);
    assert_eq!(texts(&lines[0]), vec!["Total:  ".to_string(), "1 KB".to_string()]);
    assert_eq!(texts(&lines[1]), vec!["Used:   ".to_string(), "850 B".to_string(), "  85%".to_string()]);
    assert_eq!(texts(&lines[2]), vec!["Avail:  ".to_string(), "150 B".to_string(), "  15%".to_string()]);
    assert_eq!(texts(&lines[3]), vec!["Swap:   ".to_string(), "0 B / 0 B".to_string()]);
}

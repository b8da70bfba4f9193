use dashboard::app::{poll_timeout_ms, tick_due, App, Key};
use dashboard::cli::{parse_refresh_arg, parse_u64, refresh_interval, DEFAULT_REFRESH_MS};
use dashboard::system::{
    CpuReading, LoadAvg, MemReading, ProcStatus, ProcessReading, Reading, SortBy,
};
use dashboard::text::{pad_left, pad_right, str_lt, trim, truncate, truncate_name};

fn reading_with(n: u32) -> Reading {
    let processes = (0..n)
        .map(|i| ProcessReading {
            pid: i + 1,
            name: format!("proc{}", i + 1),
            cpu_percent: 100 * (n - i),
            mem_bytes: 0,
            status: ProcStatus::Run,
            user_id: None,
        })
        .collect();
    Reading {
        cpu: CpuReading { usages: vec![100], brand: Some("cpu".to_string()), load_avg: LoadAvg { one: 0, five: 0, fifteen: 0 } },
        mem: MemReading { total: 10, available: 5, swap_total: 0, swap_used: 0 },
        uptime_secs: 0,
        processes,
    }
}

fn args(v: &[&str]) -> Vec<String> {
    v.iter().map(|s| s.to_string()).collect()
}

#[test]
fn new_app_selects_first_row_sorted_by_cpu() {
    let app = App::new(2000, &reading_with(3));
    assert!(!app.should_quit);
    assert_eq!(app.selected_process, 0);
    assert_eq!(app.sort_by, SortBy::Cpu);
    assert_eq!(app.tick, 0);
    assert_eq!(app.refresh_ms, 2000);
    assert_eq!(app.process_count(), 3);
    assert_eq!(app.selected_process_name(), Some("proc1"));
}

#[test]
fn arrow_keys_move_within_the_table() {
    let mut app = App::new(1000, &reading_with(3));
    assert!(app.on_key(Key::Up, false));
    assert_eq!(app.selected_process, 0);
    assert!(app.on_key(Key::Down, false));
    assert_eq!(app.selected_process, 1);
    assert_eq!(app.selected_process_name(), Some("proc2"));
    app.on_key(Key::Down, false);
    app.on_key(Key::Down, false);
    assert_eq!(app.selected_process, 2);
    app.on_key(Key::Up, false);
    assert_eq!(app.selected_process, 1);
}

#[test]
fn emacs_keys_need_ctrl() {
    let mut app = App::new(1000, &reading_with(3));
    assert!(app.on_key(Key::Char('n'), true));
    assert_eq!(app.selected_process, 1);
    assert!(app.on_key(Key::Char('p'), true));
    assert_eq!(app.selected_process, 0);
    assert!(!app.on_key(Key::Char('n'), false));
    assert_eq!(app.selected_process, 0);
    assert!(!app.on_key(Key::Char('x'), true));
    assert!(!app.on_key(Key::Other, false));
}

#[test]
fn page_home_and_end() {
    let mut app = App::new(1000, &reading_with(25));
    assert!(app.on_key(Key::PageDown, false));
    assert_eq!(app.selected_process, 10);
    app.on_key(Key::PageDown, false);
    app.on_key(Key::PageDown, false);
    assert_eq!(app.selected_process, 24);
    app.on_key(Key::PageUp, false);
    assert_eq!(app.selected_process, 14);
    assert!(app.on_key(Key::Home, false));
    assert_eq!(app.selected_process, 0);
    assert!(app.on_key(Key::End, false));
    assert_eq!(app.selected_process, 24);
}

#[test]
fn empty_table_keeps_selection_at_zero() {
    let mut app = App::new(1000, &reading_with(0));
    app.on_key(Key::Down, false);
    app.on_key(Key::End, false);
    assert_eq!(app.selected_process, 0);
    assert_eq!(app.selected_process_name(), None);
}

#[test]
fn ctrl_c_quits() {
    let mut app = App::new(1000, &reading_with(2));
    app.handle_key(Key::Char('c'), false);
    assert!(!app.should_quit);
    app.handle_key(Key::Down, false);
    assert_eq!(app.selected_process, 1);
    app.handle_key(Key::Char('c'), true);
    assert!(app.should_quit);
}

#[test]
fn ctrl_c_is_accepted_at_any_selection() {
    let mut app = App::new(1000, &reading_with(2));
    app.selected_process = usize::MAX;
    assert!(!app.accepts_key(Key::Down, false));
    assert!(!app.accepts_key(Key::PageDown, false));
    assert!(!app.accepts_key(Key::Char('n'), true));
    assert!(app.accepts_key(Key::Up, false));
    assert!(app.accepts_key(Key::Char('c'), true));
    app.handle_key(Key::Char('c'), true);
    assert!(app.should_quit);
    app.selected_process = usize::MAX - 10;
    assert!(app.accepts_key(Key::PageDown, false));
}

#[test]
fn ctrl_n_and_p_match_the_arrows() {
    let mut a = App::new(1000, &reading_with(4));
    let mut b = App::new(1000, &reading_with(4));
    assert_eq!(a.on_key(Key::Char('n'), true), b.on_key(Key::Down, false));
    assert_eq!(a.selected_process, b.selected_process);
    assert_eq!(a.on_key(Key::Char('p'), true), b.on_key(Key::Up, false));
    assert_eq!(a.selected_process, b.selected_process);
}

#[test]
fn tick_counts_and_refreshes() {
    let mut app = App::new(1000, &reading_with(2));
    app.on_tick(&reading_with(5));
    assert_eq!(app.tick, 1);
    assert_eq!(app.process_count(), 5);
    app.tick = u64::MAX;
    app.on_tick(&reading_with(1));
    assert_eq!(app.tick, 0);
}

#[test]
fn refresh_timing() {
    assert!(!tick_due(4999, 5000));
    assert!(tick_due(5000, 5000));
    assert_eq!(poll_timeout_ms(1200, 5000), 3800);
    assert_eq!(poll_timeout_ms(6000, 5000), 0);
}

#[test]
fn refresh_option() {
    assert_eq!(parse_refresh_arg(&args(&["dashboard", "--refresh-ms", "2000"])), Some(2000));
    assert_eq!(parse_refresh_arg(&args(&["dashboard"])), None);
    assert_eq!(parse_refresh_arg(&args(&["dashboard", "--refresh-ms"])), None);
    assert_eq!(parse_refresh_arg(&args(&["dashboard", "--refresh-ms", "fast"])), None);
    assert_eq!(parse_refresh_arg(&args(&["dashboard", "--refresh-ms", "7", "--refresh-ms", "9"])), Some(7));
    assert_eq!(refresh_interval(&args(&["dashboard"])), DEFAULT_REFRESH_MS);
    assert_eq!(refresh_interval(&args(&["dashboard", "--refresh-ms", "250"])), 250);
    assert_eq!(DEFAULT_REFRESH_MS, 5000);
}

#[test]
fn number_parsing_matches_std() {
    for s in ["0", "42", "+42", "", "+", "-1", " 1", "1 ", "18446744073709551615", "18446744073709551616", "99999999999999999999", "007"] {
        assert_eq!(parse_u64(s), s.parse::<u64>().ok(), "input {:?}", s);
    }
}

#[test]
fn text_helpers() {
    assert_eq!(truncate("short", 18), "short");
    assert_eq!(truncate("exactly-eighteen!!", 18), "exactly-eighteen!!");
    assert_eq!(truncate("nineteen-characters", 18), "nineteen-characte…");
    assert_eq!(truncate_name("ünïcödé-näme", 5), "ünïc…");
    assert_eq!(pad_left("7", 3), "  7");
    assert_eq!(pad_left("1234", 3), "1234");
    assert_eq!(pad_right("C1", 3), "C1 ");
    assert_eq!(trim("  \t Intel(R) Core \n"), "Intel(R) Core");
    assert_eq!(trim("\u{3000}x\u{2009}"), "x");
    assert_eq!(trim("   "), "");
    for (a, b) in [("a", "b"), ("ab", "a"), ("", "a"), ("Z", "a"), ("é", "z"), ("same", "same")] {
        assert_eq!(str_lt(a, b), a < b, "{:?} < {:?}", a, b);
    }
}

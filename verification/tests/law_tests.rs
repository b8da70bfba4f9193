use dashboard::app::{App, Key};
use dashboard::system::{
    CpuReading, LoadAvg, MemData, MemReading, ProcStatus, ProcessReading, Reading, SortBy,
    SystemInfo,
};
use dashboard::text::truncate;
use dashboard::theme::{gauge_color, Color};
use dashboard::ui::{core_column, mem_pct};

fn proc_reading(pid: u32, cpu: u32) -> ProcessReading {
    ProcessReading { pid, name: format!("p{pid}"), cpu_percent: cpu, mem_bytes: 0, status: ProcStatus::Run, user_id: None }
}

fn reading(procs: Vec<ProcessReading>) -> Reading {
    Reading {
        cpu: CpuReading { usages: vec![], brand: None, load_avg: LoadAvg { one: 0, five: 0, fifteen: 0 } },
        mem: MemReading { total: 0, available: 0, swap_total: 0, swap_used: 0 },
        uptime_secs: 0,
        processes: procs,
    }
}

#[test]
fn truncation_is_idempotent() {
    for s in ["", "abc", "exactly-eighteen!!", "a-much-longer-name-than-allowed"] {
        let once = truncate(s, 18);
        assert!(once.chars().count() <= 18);
        assert_eq!(truncate(&once, 18), once);
    }
}

#[test]
fn higher_load_is_never_calmer() {
    fn severity(c: Color) -> u8 {
        match c {
            Color::Rgb(80, 180, 220) => 0,
            Color::Rgb(210, 100, 160) => 1,
            _ => 2,
        }
    }
    let mut last = 0;
    for load in (0..12000u64).step_by(50) {
        let s = severity(gauge_color(load));
        assert!(s >= last);
        last = s;
    }
}

#[test]
fn core_columns_cover_every_core_once() {
    for n in 0..20usize {
        let (a0, b0) = core_column(n, 0);
        let (a1, b1) = core_column(n, 1);
        assert_eq!(a0, 0);
        assert_eq!(b1, n);
        if n > 0 {
            assert_eq!(b0, a1);
        }
        assert!(b0 - a0 >= b1 - a1);
    }
}

#[test]
fn used_and_available_make_the_total() {
    let m = MemData::from_reading(MemReading { total: 8_000, available: 3_000, swap_total: 0, swap_used: 0 });
    assert_eq!(m.used_bytes + m.available_bytes, m.total_bytes);
    for used in 0..=50u64 {
        let p = mem_pct(used, 50);
        assert!(p <= 100);
    }
    assert_eq!(mem_pct(50, 50), 100);
}

#[test]
fn page_down_equals_ten_single_steps() {
    let procs: Vec<ProcessReading> = (1..=15).map(|i| proc_reading(i, 0)).collect();
    let mut a = App::new(1000, &reading(procs.clone()));
    let mut b = App::new(1000, &reading(procs));
    a.on_key(Key::PageDown, false);
    for _ in 0..10 {
        b.on_key(Key::Down, false);
    }
    assert_eq!(a.selected_process, b.selected_process);
    a.on_key(Key::PageDown, false);
    for _ in 0..10 {
        b.on_key(Key::Down, false);
    }
    assert_eq!(a.selected_process, 14);
    assert_eq!(b.selected_process, 14);
}

#[test]
fn unchanged_usage_shows_no_activity() {
    let procs = vec![proc_reading(1, 100), proc_reading(2, 9000), proc_reading(3, 4000)];
    let mut s = SystemInfo::new();
    s.refresh(&reading(procs.clone()), SortBy::Pid);
    let again = s.refresh(&reading(procs), SortBy::Pid);
    assert!(again.active.is_empty());
}

#[test]
fn surfaced_processes_moved_by_five_percent() {
    let mut s = SystemInfo::new();
    s.refresh(&reading(vec![proc_reading(1, 1000), proc_reading(2, 1000), proc_reading(3, 1000)]), SortBy::Cpu);
    let snap = s.refresh(&reading(vec![proc_reading(1, 1499), proc_reading(2, 1500), proc_reading(3, 500)]), SortBy::Cpu);
    let pids: Vec<u32> = snap.active.iter().map(|a| a.pid).collect();
    assert_eq!(pids, vec![2, 3]);
    for a in &snap.active {
        assert!(a.delta.abs() >= 500);
    }
}

#[test]
fn process_table_is_sorted_by_cpu_descending() {
    let procs: Vec<ProcessReading> = (1..=30).map(|i| proc_reading(i, (i * 37) % 11 * 100)).collect();
    let mut s = SystemInfo::new();
    let snap = s.refresh(&reading(procs), SortBy::Cpu);
    for w in snap.processes.windows(2) {
        assert!(w[0].cpu_percent >= w[1].cpu_percent);
    }
    assert_eq!(snap.processes.len(), 30);
}

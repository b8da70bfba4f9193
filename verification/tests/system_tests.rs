use std::collections::HashMap;

use dashboard::system::{
    activity_list, format_status, process_table, usage_by_pid, ActiveProcess, CpuReading,
    LoadAvg, MemData, MemReading, ProcStatus, ProcessInfo, ProcessReading, Reading, SortBy,
    SystemInfo, Trend, CPU_HISTORY_LEN, MAX_ACTIVE,
};

fn reading(pid: u32, name: &str, cpu: u32, mem: u64) -> ProcessReading {
    ProcessReading {
        pid,
        name: name.to_string(),
        cpu_percent: cpu,
        mem_bytes: mem,
        status: ProcStatus::Sleep,
        user_id: Some(1000),
    }
}

fn row(pid: u32, name: &str, cpu: u32) -> ProcessInfo {
    ProcessInfo {
        pid,
        name: name.to_string(),
        cpu_percent: cpu,
        mem_bytes: 0,
        status: "Run".to_string(),
        user: "0".to_string(),
    }
}

fn cpu_reading(usages: Vec<u32>, brand: Option<&str>) -> CpuReading {
    CpuReading {
        usages,
        brand: brand.map(|b| b.to_string()),
        load_avg: LoadAvg { one: 0, five: 0, fifteen: 0 },
    }
}

fn full_reading(usages: Vec<u32>, procs: Vec<ProcessReading>) -> Reading {
    Reading {
        cpu: cpu_reading(usages, Some("Test CPU")),
        mem: MemReading { total: 1000, available: 250, swap_total: 10, swap_used: 2 },
        uptime_secs: 42,
        processes: procs,
    }
}

#[test]
fn sort_by_cycles_through_all_columns() {
    assert_eq!(SortBy::Cpu.next(), SortBy::Memory);
    assert_eq!(SortBy::Memory.next(), SortBy::Pid);
    assert_eq!(SortBy::Pid.next(), SortBy::Name);
    assert_eq!(SortBy::Name.next(), SortBy::Cpu);
    let mut s = SortBy::Pid;
    for _ in 0..4 {
        s = s.next();
    }
    assert_eq!(s, SortBy::Pid);
}

#[test]
fn sort_by_labels() {
    assert_eq!(SortBy::Cpu.label(), "CPU%");
    assert_eq!(SortBy::Memory.label(), "MEM");
    assert_eq!(SortBy::Pid.label(), "PID");
    assert_eq!(SortBy::Name.label(), "NAME");
}

#[test]
fn status_labels() {
    assert_eq!(format_status(&ProcStatus::Run), "Run");
    assert_eq!(format_status(&ProcStatus::Sleep), "Sleep");
    assert_eq!(format_status(&ProcStatus::Idle), "Idle");
    assert_eq!(format_status(&ProcStatus::Stop), "Stop");
    assert_eq!(format_status(&ProcStatus::Zombie), "Zombie");
    assert_eq!(format_status(&ProcStatus::Dead), "Dead");
    assert_eq!(format_status(&ProcStatus::Tracing), "Trace");
    assert_eq!(format_status(&ProcStatus::Parked), "Parked");
    assert_eq!(format_status(&ProcStatus::Other("Waking".to_string())), "Waking");
}

#[test]
fn used_memory_is_total_minus_available() {
    let m = MemData::from_reading(MemReading { total: 1000, available: 300, swap_total: 50, swap_used: 5 });
    assert_eq!(m.total_bytes, 1000);
    assert_eq!(m.used_bytes, 700);
    assert_eq!(m.available_bytes, 300);
    assert_eq!(m.swap_total_bytes, 50);
    assert_eq!(m.swap_used_bytes, 5);
    let odd = MemData::from_reading(MemReading { total: 10, available: 20, swap_total: 0, swap_used: 0 });
    assert_eq!(odd.used_bytes, 0);
}

#[test]
fn table_sorted_by_cpu_descending_ties_in_reading_order() {
    let rs = vec![reading(1, "a", 100, 0), reading(2, "b", 900, 0), reading(3, "c", 100, 0), reading(4, "d", 500, 0)];
    let t = process_table(&rs, SortBy::Cpu);
    let pids: Vec<u32> = t.iter().map(|p| p.pid).collect();
    assert_eq!(pids, vec![2, 4, 1, 3]);
    assert_eq!(t[0].status, "Sleep");
    assert_eq!(t[0].user, "1000");
}

#[test]
fn table_sorted_by_memory_pid_and_name() {
    let rs = vec![reading(30, "zsh", 0, 5), reading(10, "bash", 0, 50), reading(20, "Xorg", 0, 20)];
    let by_mem: Vec<u32> = process_table(&rs, SortBy::Memory).iter().map(|p| p.pid).collect();
    assert_eq!(by_mem, vec![10, 20, 30]);
    let by_pid: Vec<u32> = process_table(&rs, SortBy::Pid).iter().map(|p| p.pid).collect();
    assert_eq!(by_pid, vec![10, 20, 30]);
    let by_name: Vec<String> = process_table(&rs, SortBy::Name).iter().map(|p| p.name.clone()).collect();
    assert_eq!(by_name, vec!["Xorg".to_string(), "bash".to_string(), "zsh".to_string()]);
}

#[test]
fn unknown_user_shows_dash() {
    let mut r = reading(7, "kthread", 0, 0);
    r.user_id = None;
    let t = process_table(&vec![r], SortBy::Pid);
    assert_eq!(t[0].user, "-");
}

#[test]
fn activity_needs_a_change_of_five_percent() {
    let mut prev = HashMap::new();
    prev.insert(1u32, 1000u32);
    prev.insert(2u32, 1000u32);
    prev.insert(3u32, 1000u32);
    let table = vec![row(1, "up", 1500), row(2, "small", 1499), row(3, "down", 400), row(4, "new", 9000)];
    let a = activity_list(&table, &prev);
    assert_eq!(a.len(), 2);
    assert_eq!(a[0].pid, 3);
    assert_eq!(a[0].delta, -600);
    assert_eq!(a[0].trend, Trend::Falling);
    assert_eq!(a[1].pid, 1);
    assert_eq!(a[1].delta, 500);
    assert_eq!(a[1].trend, Trend::Rising);
}

#[test]
fn activity_keeps_the_eight_largest_changes() {
    let mut prev = HashMap::new();
    let mut table = Vec::new();
    for i in 0..12u32 {
        prev.insert(i, 0u32);
        table.push(row(i, "p", 600 + 100 * i));
    }
    let a: Vec<ActiveProcess> = activity_list(&table, &prev);
    assert_eq!(a.len(), MAX_ACTIVE);
    let pids: Vec<u32> = a.iter().map(|x| x.pid).collect();
    assert_eq!(pids, vec![11, 10, 9, 8, 7, 6, 5, 4]);
}

#[test]
fn activity_ties_keep_table_order() {
    let mut prev = HashMap::new();
    prev.insert(5u32, 0u32);
    prev.insert(6u32, 2000u32);
    let table = vec![row(5, "a", 1000), row(6, "b", 1000)];
    let a = activity_list(&table, &prev);
    assert_eq!(a.iter().map(|x| x.pid).collect::<Vec<u32>>(), vec![5, 6]);
}

#[test]
fn usage_map_keeps_each_pid() {
    let table = vec![row(1, "a", 10), row(2, "b", 20)];
    let m = usage_by_pid(&table);
    assert_eq!(m.get(&1), Some(&10));
    assert_eq!(m.get(&2), Some(&20));
    assert_eq!(m.len(), 2);
}

#[test]
fn refresh_builds_cpu_data() {
    let mut s = SystemInfo::new();
    let r = Reading {
        cpu: cpu_reading(vec![1000, 2000, 3001], Some("  Ryzen 7  ")),
        mem: MemReading { total: 100, available: 40, swap_total: 0, swap_used: 0 },
        uptime_secs: 3600,
        processes: vec![],
    };
    let snap = s.refresh(&r, SortBy::Cpu);
    assert_eq!(snap.cpu.brand, "Ryzen 7");
    assert_eq!(snap.cpu.total_usage, 2000);
    assert_eq!(snap.cpu.cores.len(), 3);
    assert_eq!(snap.cpu.cores[0].name, "C0");
    assert_eq!(snap.cpu.cores[2].name, "C2");
    assert_eq!(snap.cpu.cores[2].usage, 3001);
    assert_eq!(snap.cpu.history, vec![2000]);
    assert_eq!(snap.mem.used_bytes, 60);
    assert_eq!(snap.uptime_secs, 3600);
}

#[test]
fn brand_falls_back_to_unknown() {
    let mut s = SystemInfo::new();
    let mut r = full_reading(vec![], vec![]);
    r.cpu.brand = Some("   ".to_string());
    assert_eq!(s.refresh(&r, SortBy::Cpu).cpu.brand, "Unknown CPU");
    r.cpu.brand = None;
    let snap = s.refresh(&r, SortBy::Cpu);
    assert_eq!(snap.cpu.brand, "Unknown CPU");
    assert_eq!(snap.cpu.total_usage, 0);
}

#[test]
fn history_keeps_last_sixty_samples() {
    let mut s = SystemInfo::new();
    let mut last = Vec::new();
    for i in 0..70u32 {
        last = s.refresh(&full_reading(vec![i], vec![]), SortBy::Cpu).cpu.history;
    }
    assert_eq!(last.len(), CPU_HISTORY_LEN);
    assert_eq!(last[0], 10);
    assert_eq!(last[59], 69);
}

#[test]
fn refresh_reports_changes_since_previous_refresh() {
    let mut s = SystemInfo::new();
    let first = s.refresh(&full_reading(vec![0], vec![reading(1, "a", 100, 0), reading(2, "b", 100, 0)]), SortBy::Cpu);
    assert!(first.active.is_empty());
    let second = s.refresh(&full_reading(vec![0], vec![reading(1, "a", 900, 0), reading(2, "b", 150, 0)]), SortBy::Cpu);
    assert_eq!(second.active.len(), 1);
    assert_eq!(second.active[0].pid, 1);
    assert_eq!(second.active[0].delta, 800);
    let third = s.refresh(&full_reading(vec![0], vec![reading(1, "a", 900, 0), reading(2, "b", 150, 0)]), SortBy::Cpu);
    assert!(third.active.is_empty());
}

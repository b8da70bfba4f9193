use vstd::prelude::*;
use std::collections::HashMap;
use crate::order::{Precedence, is_stable_sort, stable_sort, lemma_stable_sort_is_sorted,
    stable_sort_keeps_every_item};
use crate::text::{seq_lt, str_lt, lemma_seq_lt_irreflexive, lemma_seq_lt_transitive,
    lemma_seq_lt_total, decimal, decimal_spec, push_decimal, push_char, trim, trim_spec};

verus! {

/// How many total-usage samples the CPU history keeps.
pub const CPU_HISTORY_LEN: usize = 60;

/// The smallest change of a process's CPU usage between two refreshes, in
/// hundredths of a percent, that puts it on the activity list (5.00%).
pub const ACTIVITY_THRESHOLD: u32 = 500;

/// How many processes the activity list shows at most.
pub const MAX_ACTIVE: usize = 8;

/// One CPU core. Usage is in hundredths of a percent (0 to 10000).
#[derive(Debug, Clone)]
pub struct CoreInfo {
    /// e.g. "C0", "C1"
    pub name: String,
    pub usage: u32,
}

/// One, five and fifteen minute load averages, in hundredths.
#[derive(Debug, Clone, Copy, PartialEq, Eq, Structural)]
pub struct LoadAvg {
    pub one: u32,
    pub five: u32,
    pub fifteen: u32,
}

/// The CPU panel's data. Usages and load averages are in hundredths.
#[derive(Debug, Clone)]
pub struct CpuData {
    pub brand: String,
    pub total_usage: u32,
    pub cores: Vec<CoreInfo>,
    /// Recent total-usage samples, oldest first.
    pub history: Vec<u32>,
    pub load_avg: LoadAvg,
}

/// Memory and swap figures, in bytes.
#[derive(Debug, Clone, Copy, PartialEq, Eq, Structural)]
pub struct MemData {
    pub total_bytes: u64,
    pub used_bytes: u64,
    pub available_bytes: u64,
    pub swap_total_bytes: u64,
    pub swap_used_bytes: u64,
}

/// Which way a process's CPU usage moved.
#[derive(Debug, Clone, Copy, PartialEq, Eq, Structural)]
pub enum Trend {
    Rising,
    Falling,
    Stable,
}

/// One row of the process table. CPU usage is in hundredths of a percent.
#[derive(Debug, Clone)]
pub struct ProcessInfo {
    pub pid: u32,
    pub name: String,
    pub cpu_percent: u32,
    pub mem_bytes: u64,
    pub status: String,
    pub user: String,
}

/// A process whose CPU usage changed sharply since the last refresh.
/// `cpu_percent` and `delta` are in hundredths of a percent.
#[derive(Debug, Clone)]
pub struct ActiveProcess {
    pub pid: u32,
    pub name: String,
    pub cpu_percent: u32,
    pub mem_bytes: u64,
    pub trend: Trend,
    pub delta: i64,
}

/// Everything one refresh shows.
#[derive(Debug, Clone)]
pub struct Snapshot {
    pub cpu: CpuData,
    pub mem: MemData,
    pub processes: Vec<ProcessInfo>,
    pub active: Vec<ActiveProcess>,
    pub uptime_secs: u64,
}

/// A process's scheduling state as the operating system reports it.
/// `Other` carries the name of a state without a label of its own.
#[derive(Debug, Clone)]
pub enum ProcStatus {
    Run,
    Sleep,
    Idle,
    Stop,
    Zombie,
    Dead,
    Tracing,
    Parked,
    Other(String),
}

/// One process as read from the operating system.
#[derive(Debug, Clone)]
pub struct ProcessReading {
    pub pid: u32,
    pub name: String,
    /// hundredths of a percent
    pub cpu_percent: u32,
    pub mem_bytes: u64,
    pub status: ProcStatus,
    pub user_id: Option<u32>,
}

/// The CPU figures read at one refresh.
#[derive(Debug, Clone)]
pub struct CpuReading {
    /// Per-core usage, hundredths of a percent.
    pub usages: Vec<u32>,
    /// The first core's brand string, untrimmed, if there is a core.
    pub brand: Option<String>,
    pub load_avg: LoadAvg,
}

/// The memory figures read at one refresh, in bytes.
#[derive(Debug, Clone, Copy)]
pub struct MemReading {
    pub total: u64,
    pub available: u64,
    pub swap_total: u64,
    pub swap_used: u64,
}

/// Everything read from the operating system at one refresh.
#[derive(Debug, Clone)]
pub struct Reading {
    pub cpu: CpuReading,
    pub mem: MemReading,
    pub uptime_secs: u64,
    pub processes: Vec<ProcessReading>,
}

/// The column by which the process table is ordered.
#[derive(Debug, Clone, Copy, PartialEq, Eq, Structural)]
pub enum SortBy {
    Cpu,
    Memory,
    Pid,
    Name,
}

/// Which column comes after `s` when cycling through the columns.
pub open spec fn spec_next(s: SortBy) -> SortBy {
    match s {
        SortBy::Cpu => SortBy::Memory,
        SortBy::Memory => SortBy::Pid,
        SortBy::Pid => SortBy::Name,
        SortBy::Name => SortBy::Cpu,
    }
}

/// The header text of a column.
pub open spec fn spec_label(s: SortBy) -> Seq<char> {
    match s {
        SortBy::Cpu => seq!['C', 'P', 'U', '%'],
        SortBy::Memory => seq!['M', 'E', 'M'],
        SortBy::Pid => seq!['P', 'I', 'D'],
        SortBy::Name => seq!['N', 'A', 'M', 'E'],
    }
}

impl SortBy {
    /// The next column in the cycle CPU -> MEM -> PID -> NAME -> CPU.
    pub fn next(self) -> (r: Self)
        ensures
            r == spec_next(self),
    {
        match self {
            SortBy::Cpu => SortBy::Memory,
            SortBy::Memory => SortBy::Pid,
            SortBy::Pid => SortBy::Name,
            SortBy::Name => SortBy::Cpu,
        }
    }

    /// The column's header label.
    pub fn label(self) -> (r: &'static str)
        ensures
            r@ == spec_label(self),
    {
        proof {
            reveal_strlit("CPU%");
            reveal_strlit("MEM");
            reveal_strlit("PID");
            reveal_strlit("NAME");
        }
        match self {
            SortBy::Cpu => "CPU%",
            SortBy::Memory => "MEM",
            SortBy::Pid => "PID",
            SortBy::Name => "NAME",
        }
    }
}

/// The label shown for a process state.
pub open spec fn status_text(s: ProcStatus) -> Seq<char> {
    match s {
        ProcStatus::Run => "Run"@,
        ProcStatus::Sleep => "Sleep"@,
        ProcStatus::Idle => "Idle"@,
        ProcStatus::Stop => "Stop"@,
        ProcStatus::Zombie => "Zombie"@,
        ProcStatus::Dead => "Dead"@,
        ProcStatus::Tracing => "Trace"@,
        ProcStatus::Parked => "Parked"@,
        ProcStatus::Other(name) => name@,
    }
}

/// The label shown for a process state.
pub fn format_status(s: &ProcStatus) -> (r: String)
    ensures
        r@ == status_text(*s),
{
    match s {
        ProcStatus::Run => String::from_str("Run"),
        ProcStatus::Sleep => String::from_str("Sleep"),
        ProcStatus::Idle => String::from_str("Idle"),
        ProcStatus::Stop => String::from_str("Stop"),
        ProcStatus::Zombie => String::from_str("Zombie"),
        ProcStatus::Dead => String::from_str("Dead"),
        ProcStatus::Tracing => String::from_str("Trace"),
        ProcStatus::Parked => String::from_str("Parked"),
        ProcStatus::Other(name) => name.clone(),
    }
}

/// The user column: the numeric user id, or "-" when it is unknown.
pub open spec fn user_text(u: Option<u32>) -> Seq<char> {
    match u {
        Some(id) => decimal_spec(id as nat),
        None => seq!['-'],
    }
}

/// Memory data from raw figures. "Used" is total minus available (0 if the
/// system reports more available than total), which unlike the system's own
/// "used" figure does not count file cache.
pub open spec fn mem_data_of(m: MemReading) -> MemData {
    MemData {
        total_bytes: m.total,
        used_bytes: if m.available <= m.total { (m.total - m.available) as u64 } else { 0 },
        available_bytes: m.available,
        swap_total_bytes: m.swap_total,
        swap_used_bytes: m.swap_used,
    }
}

impl MemData {
    /// The memory panel's figures for a reading.
    pub fn from_reading(m: MemReading) -> (r: MemData)
        ensures
            r == mem_data_of(m),
    {
        MemData {
            total_bytes: m.total,
            used_bytes: m.total.saturating_sub(m.available),
            available_bytes: m.available,
            swap_total_bytes: m.swap_total,
            swap_used_bytes: m.swap_used,
        }
    }
}

impl Precedence for ProcessInfo {
    type Criterion = SortBy;

    /// Highest CPU first, highest memory first, lowest PID first, or names in
    /// ascending order.
    open spec fn spec_precedes(self, other: Self, c: SortBy) -> bool {
        match c {
            SortBy::Cpu => self.cpu_percent > other.cpu_percent,
            SortBy::Memory => self.mem_bytes > other.mem_bytes,
            SortBy::Pid => self.pid < other.pid,
            SortBy::Name => seq_lt(self.name@, other.name@),
        }
    }

    fn precedes(&self, other: &Self, c: SortBy) -> (r: bool) {
        match c {
            SortBy::Cpu => self.cpu_percent > other.cpu_percent,
            SortBy::Memory => self.mem_bytes > other.mem_bytes,
            SortBy::Pid => self.pid < other.pid,
            SortBy::Name => str_lt(self.name.as_str(), other.name.as_str()),
        }
    }

    proof fn lemma_strict_weak(a: Self, b: Self, x: Self, c: SortBy) {
        if c == SortBy::Name {
            lemma_seq_lt_irreflexive(a.name@);
            if seq_lt(a.name@, b.name@) && seq_lt(b.name@, x.name@) {
                lemma_seq_lt_transitive(a.name@, b.name@, x.name@);
            }
            if !seq_lt(a.name@, b.name@) && !seq_lt(b.name@, x.name@) && seq_lt(a.name@, x.name@) {
                if b.name@ == x.name@ {
                } else {
                    lemma_seq_lt_total(b.name@, x.name@);
                    lemma_seq_lt_transitive(a.name@, x.name@, b.name@);
                }
            }
        }
    }
}

/// The absolute value of an integer.
pub open spec fn abs(x: int) -> int {
    if x < 0 { -x } else { x }
}

/// The activity list's order: the largest change of CPU usage first.
#[derive(Debug, Clone, Copy)]
pub struct LargestChange;

impl Precedence for ActiveProcess {
    type Criterion = LargestChange;

    /// The larger change of CPU usage first.
    open spec fn spec_precedes(self, other: Self, c: LargestChange) -> bool {
        abs(self.delta as int) > abs(other.delta as int)
    }

    fn precedes(&self, other: &Self, c: LargestChange) -> (r: bool) {
        let a: i128 = if self.delta < 0 { -(self.delta as i128) } else { self.delta as i128 };
        let b: i128 = if other.delta < 0 { -(other.delta as i128) } else { other.delta as i128 };
        a > b
    }

    proof fn lemma_strict_weak(a: Self, b: Self, x: Self, c: LargestChange) {
    }
}

/// Process row `p` shows reading `r`.
pub open spec fn shows_reading(p: ProcessInfo, r: ProcessReading) -> bool {
    &&& p.pid == r.pid
    &&& p.name@ == r.name@
    &&& p.cpu_percent == r.cpu_percent
    &&& p.mem_bytes == r.mem_bytes
    &&& p.status@ == status_text(r.status)
    &&& p.user@ == user_text(r.user_id)
}

fn user_label(u: Option<u32>) -> (s: String)
    ensures
        s@ == user_text(u),
{
    match u {
        Some(id) => decimal(id as u64),
        None => {
            let mut s = String::new();
            push_char(&mut s, '-');
            s
        },
    }
}

/// The table row for one process reading.
pub fn process_info(r: &ProcessReading) -> (p: ProcessInfo)
    ensures
        shows_reading(p, *r),
{
    ProcessInfo {
        pid: r.pid,
        name: r.name.clone(),
        cpu_percent: r.cpu_percent,
        mem_bytes: r.mem_bytes,
        status: format_status(&r.status),
        user: user_label(r.user_id),
    }
}

/// `table` is the process table for `readings`: one row per reading, stably
/// sorted by the column `by`.
pub open spec fn is_process_table(
    readings: Seq<ProcessReading>,
    by: SortBy,
    table: Seq<ProcessInfo>,
) -> bool {
    exists|rows: Seq<ProcessInfo>, perm: Seq<int>|
        {
            &&& rows.len() == readings.len()
            &&& forall|i: int| 0 <= i < rows.len() ==> shows_reading(#[trigger] rows[i], readings[i])
            &&& is_stable_sort(rows, table, perm, by)
        }
}

/// The process table: one row per reading, ordered by the chosen column
/// (highest CPU or memory first, lowest PID first, names ascending), with
/// tied rows kept in reading order.
pub fn process_table(readings: &Vec<ProcessReading>, by: SortBy) -> (table: Vec<ProcessInfo>)
    ensures
        is_process_table(readings@, by, table@),
{
    let mut rows: Vec<ProcessInfo> = Vec::new();
    let mut i: usize = 0;
    while i < readings.len()
        invariant
            i <= readings@.len(),
            rows@.len() == i,
            forall|k: int| 0 <= k < i ==> shows_reading(#[trigger] rows@[k], readings@[k]),
        decreases readings.len() - i,
    {
        rows.push(process_info(&readings[i]));
        i = i + 1;
    }
    let ghost rs = rows@;
    let table = stable_sort(rows, by);
    assert(exists|rows: Seq<ProcessInfo>, perm: Seq<int>|
        {
            &&& rows.len() == readings@.len()
            &&& forall|i: int| 0 <= i < rows.len() ==> shows_reading(#[trigger] rows[i], readings@[i])
            &&& is_stable_sort(rows, table@, perm, by)
        }) by {
        let perm = choose|perm: Seq<int>| is_stable_sort(rs, table@, perm, by);
        assert(is_stable_sort(rs, table@, perm, by));
    }
    table
}

/// The usage a process had at the previous refresh; a process not seen
/// before counts as unchanged.
pub open spec fn prev_usage(prev: Map<u32, u32>, p: ProcessInfo) -> int {
    if prev.contains_key(p.pid) { prev[p.pid] as int } else { p.cpu_percent as int }
}

/// How much a process's CPU usage moved since the previous refresh.
pub open spec fn usage_delta(prev: Map<u32, u32>, p: ProcessInfo) -> int {
    p.cpu_percent - prev_usage(prev, p)
}

/// The process's usage moved by at least the activity threshold.
pub open spec fn is_rapid(prev: Map<u32, u32>, p: ProcessInfo) -> bool {
    abs(usage_delta(prev, p)) >= ACTIVITY_THRESHOLD
}

/// The rows of `table` whose usage moved by at least the threshold, in
/// table order.
pub open spec fn rapid_rows(prev: Map<u32, u32>, table: Seq<ProcessInfo>) -> Seq<ProcessInfo>
    decreases table.len(),
{
    if table.len() == 0 {
        Seq::empty()
    } else {
        let before = rapid_rows(prev, table.drop_last());
        if is_rapid(prev, table.last()) {
            before.push(table.last())
        } else {
            before
        }
    }
}

/// A positive change is rising; any other is falling.
pub open spec fn trend_of(delta: int) -> Trend {
    if delta > 0 { Trend::Rising } else { Trend::Falling }
}

/// Activity entry `a` describes the change of row `p`.
pub open spec fn shows_change(a: ActiveProcess, p: ProcessInfo, prev: Map<u32, u32>) -> bool {
    &&& a.pid == p.pid
    &&& a.name@ == p.name@
    &&& a.cpu_percent == p.cpu_percent
    &&& a.mem_bytes == p.mem_bytes
    &&& a.delta == usage_delta(prev, p)
    &&& a.trend == trend_of(a.delta as int)
}

/// The smaller of two integers.
pub open spec fn min(a: int, b: int) -> int {
    if a <= b { a } else { b }
}

/// `active` is the activity list for `table` given the usage of the previous
/// refresh: the rapidly changing rows, largest change first (ties in table
/// order), at most `MAX_ACTIVE` of them.
pub open spec fn is_activity_list(
    prev: Map<u32, u32>,
    table: Seq<ProcessInfo>,
    active: Seq<ActiveProcess>,
) -> bool {
    let rapid = rapid_rows(prev, table);
    exists|changes: Seq<ActiveProcess>, sorted: Seq<ActiveProcess>, perm: Seq<int>|
        {
            &&& changes.len() == rapid.len()
            &&& forall|i: int|
                0 <= i < changes.len() ==> shows_change(#[trigger] changes[i], rapid[i], prev)
            &&& is_stable_sort(changes, sorted, perm, LargestChange)
            &&& active == sorted.take(min(MAX_ACTIVE as int, sorted.len() as int))
        }
}

fn change_of(p: &ProcessInfo, prev: &HashMap<u32, u32>) -> (r: Option<ActiveProcess>)
    ensures
        is_rapid(prev@, *p) ==> r is Some && shows_change(r->0, *p, prev@),
        !is_rapid(prev@, *p) ==> r is None,
{
    broadcast use vstd::std_specs::hash::group_hash_axioms;
    let before: u32 = match prev.get(&p.pid) {
        Some(v) => *v,
        None => p.cpu_percent,
    };
    let delta: i64 = p.cpu_percent as i64 - before as i64;
    let magnitude: i64 = if delta < 0 { -delta } else { delta };
    if magnitude >= ACTIVITY_THRESHOLD as i64 {
        Some(ActiveProcess {
            pid: p.pid,
            name: p.name.clone(),
            cpu_percent: p.cpu_percent,
            mem_bytes: p.mem_bytes,
            trend: if delta > 0 { Trend::Rising } else { Trend::Falling },
            delta,
        })
    } else {
        None
    }
}

/// The activity list: processes whose CPU usage moved by at least
/// `ACTIVITY_THRESHOLD` since the previous refresh, largest change first,
/// at most `MAX_ACTIVE` of them.
pub fn activity_list(table: &Vec<ProcessInfo>, prev: &HashMap<u32, u32>) -> (active: Vec<ActiveProcess>)
    ensures
        is_activity_list(prev@, table@, active@),
{
    let mut changes: Vec<ActiveProcess> = Vec::new();
    let mut i: usize = 0;
    while i < table.len()
        invariant
            i <= table@.len(),
            changes@.len() == rapid_rows(prev@, table@.take(i as int)).len(),
            forall|k: int|
                0 <= k < changes@.len() ==> shows_change(
                    #[trigger] changes@[k],
                    rapid_rows(prev@, table@.take(i as int))[k],
                    prev@,
                ),
        decreases table.len() - i,
    {
        let ghost before = rapid_rows(prev@, table@.take(i as int));
        assert(table@.take(i + 1).drop_last() =~= table@.take(i as int));
        assert(table@.take(i + 1).last() == table@[i as int]);
        match change_of(&table[i], prev) {
            Some(a) => {
                changes.push(a);
            },
            None => {},
        }
        i = i + 1;
    }
    assert(table@.take(table@.len() as int) =~= table@);
    let ghost cs = changes@;
    let mut sorted = stable_sort(changes, LargestChange);
    let ghost ss = sorted@;
    sorted.truncate(MAX_ACTIVE);
    assert(sorted@ == ss.take(min(MAX_ACTIVE as int, ss.len() as int)));
    assert(is_activity_list(prev@, table@, sorted@)) by {
        let perm = choose|perm: Seq<int>| is_stable_sort(cs, ss, perm, LargestChange);
        assert(is_stable_sort(cs, ss, perm, LargestChange));
    }
    sorted
}

/// Each process's usage by PID; a later row overrides an earlier one with the
/// same PID.
pub open spec fn usage_map(table: Seq<ProcessInfo>) -> Map<u32, u32>
    decreases table.len(),
{
    if table.len() == 0 {
        Map::empty()
    } else {
        usage_map(table.drop_last()).insert(table.last().pid, table.last().cpu_percent)
    }
}

/// The usage of each process in the table, keyed by PID.
pub fn usage_by_pid(table: &Vec<ProcessInfo>) -> (m: HashMap<u32, u32>)
    ensures
        m@ == usage_map(table@),
{
    broadcast use vstd::std_specs::hash::group_hash_axioms;
    let mut m: HashMap<u32, u32> = HashMap::new();
    let mut i: usize = 0;
    while i < table.len()
        invariant
            i <= table@.len(),
            m@ == usage_map(table@.take(i as int)),
        decreases table.len() - i,
    {
        assert(table@.take(i + 1).drop_last() =~= table@.take(i as int));
        m.insert(table[i].pid, table[i].cpu_percent);
        i = i + 1;
    }
    assert(table@.take(table@.len() as int) =~= table@);
    m
}

/// A core's label: "C" followed by its index.
pub open spec fn core_name(i: nat) -> Seq<char> {
    seq!['C'] + decimal_spec(i)
}

/// The sum of a sequence of usages.
pub open spec fn usage_sum(u: Seq<u32>) -> int
    decreases u.len(),
{
    if u.len() == 0 { 0 } else { usage_sum(u.drop_last()) + u.last() }
}

/// The mean of per-core usages, rounded down; 0 without cores.
pub open spec fn mean_usage(u: Seq<u32>) -> int {
    if u.len() == 0 { 0 } else { usage_sum(u) / (u.len() as int) }
}

/// The history after recording sample `x`: the oldest sample leaves once
/// `CPU_HISTORY_LEN` samples are held.
pub open spec fn history_after(h: Seq<u32>, x: u32) -> Seq<u32> {
    if h.len() >= CPU_HISTORY_LEN { h.drop_first().push(x) } else { h.push(x) }
}

/// The brand shown for a CPU: the first core's brand without surrounding
/// whitespace, or "Unknown CPU" when there is none or it is blank.
pub open spec fn brand_text(raw: Option<String>) -> Seq<char> {
    match raw {
        Some(b) => if trim_spec(b@).len() > 0 { trim_spec(b@) } else { "Unknown CPU"@ },
        None => "Unknown CPU"@,
    }
}

/// `d` is the CPU panel's data for reading `r` with `history` the samples
/// held before it.
pub open spec fn is_cpu_data(r: CpuReading, history: Seq<u32>, d: CpuData) -> bool {
    &&& d.brand@ == brand_text(r.brand)
    &&& d.total_usage == mean_usage(r.usages@)
    &&& d.cores@.len() == r.usages@.len()
    &&& forall|i: int|
        0 <= i < d.cores@.len() ==> (#[trigger] d.cores@[i]).name@ == core_name(i as nat)
            && d.cores@[i].usage == r.usages@[i]
    &&& d.history@ == history_after(history, d.total_usage)
    &&& d.load_avg == r.load_avg
}

proof fn lemma_mean_bounded(sum: int, n: int)
    requires
        n > 0,
        0 <= sum <= n * 0xffff_ffff,
    ensures
        0 <= sum / n <= 0xffff_ffff,
{
    assert(sum / n <= 0xffff_ffff) by (nonlinear_arith)
        requires
            n > 0,
            0 <= sum <= n * 0xffff_ffff,
    ;
    assert(sum / n >= 0) by (nonlinear_arith)
        requires
            n > 0,
            0 <= sum,
    ;
}

proof fn lemma_usage_sum_is_total(u: Seq<u32>)
    ensures
        usage_sum(u) == u.fold_left(0int, |acc: int, x: u32| acc + x),
    decreases u.len(),
{
    if u.len() > 0 {
        lemma_usage_sum_is_total(u.drop_last());
    }
}

/// The mean of the usages is their total divided by their count, rounded
/// down: times the count it is at most the total, and one more times the
/// count it is above the total. Without usages it is 0.
pub proof fn mean_usage_is_mean(u: Seq<u32>)
    ensures
        u.len() == 0 ==> mean_usage(u) == 0,
        u.len() > 0 ==> mean_usage(u) * u.len() <= u.fold_left(0int, |acc: int, x: u32| acc + x),
        u.len() > 0 ==> u.fold_left(0int, |acc: int, x: u32| acc + x) < (mean_usage(u) + 1) * u.len(),
{
    lemma_usage_sum_is_total(u);
    if u.len() > 0 {
        let total = usage_sum(u);
        let n = u.len() as int;
        assert((total / n) * n <= total && total < (total / n + 1) * n) by (nonlinear_arith)
            requires
                n > 0,
        ;
    }
}

/// The CPU panel's total usage is the mean of the core usages read, rounded
/// down (0 without cores), and it is the newest sample of the history.
pub proof fn cpu_total_is_mean_of_cores(r: CpuReading, history: Seq<u32>, d: CpuData)
    requires
        is_cpu_data(r, history, d),
    ensures
        r.usages@.len() == 0 ==> d.total_usage == 0,
        r.usages@.len() > 0 ==> d.total_usage * r.usages@.len() <= r.usages@.fold_left(
            0int,
            |acc: int, x: u32| acc + x,
        ),
        r.usages@.len() > 0 ==> r.usages@.fold_left(0int, |acc: int, x: u32| acc + x) < (d.total_usage
            + 1) * r.usages@.len(),
        d.history@.len() > 0 && d.history@.last() == d.total_usage,
{
    mean_usage_is_mean(r.usages@);
}

/// The mean usage of the cores, rounded down; 0 when there are none.
pub fn mean_of(u: &Vec<u32>) -> (m: u32)
    ensures
        m == mean_usage(u@),
        u@.len() == 0 ==> m == 0,
        u@.len() > 0 ==> m * u@.len() <= u@.fold_left(0int, |acc: int, x: u32| acc + x),
        u@.len() > 0 ==> u@.fold_left(0int, |acc: int, x: u32| acc + x) < (m + 1) * u@.len(),
{
    proof {
        mean_usage_is_mean(u@);
    }
    let n = u.len();
    if n == 0 {
        return 0;
    }
    let mut sum: u128 = 0;
    let mut i: usize = 0;
    while i < n
        invariant
            n == u@.len(),
            i <= n,
            sum == usage_sum(u@.take(i as int)),
            sum <= i * 0xffff_ffffu128,
        decreases n - i,
    {
        assert(u@.take(i + 1).drop_last() =~= u@.take(i as int));
        sum = sum + u[i] as u128;
        i = i + 1;
    }
    assert(u@.take(n as int) =~= u@);
    proof {
        lemma_mean_bounded(sum as int, n as int);
    }
    (sum / (n as u128)) as u32
}

/// The brand shown for a CPU.
pub fn brand_label(raw: &Option<String>) -> (b: String)
    ensures
        b@ == brand_text(*raw),
{
    match raw {
        Some(s) => {
            let t = trim(s.as_str());
            if t.unicode_len() > 0 {
                t
            } else {
                String::from_str("Unknown CPU")
            }
        },
        None => String::from_str("Unknown CPU"),
    }
}

/// A core's label, "C" followed by its index.
pub fn core_label(i: usize) -> (s: String)
    ensures
        s@ == core_name(i as nat),
{
    let mut s = String::new();
    push_char(&mut s, 'C');
    push_decimal(&mut s, i as u64);
    assert(s@ =~= core_name(i as nat));
    s
}

/// The per-core entries for a reading.
pub fn core_list(usages: &Vec<u32>) -> (cores: Vec<CoreInfo>)
    ensures
        cores@.len() == usages@.len(),
        forall|i: int|
            0 <= i < cores@.len() ==> (#[trigger] cores@[i]).name@ == core_name(i as nat)
                && cores@[i].usage == usages@[i],
{
    let mut cores: Vec<CoreInfo> = Vec::new();
    let mut i: usize = 0;
    while i < usages.len()
        invariant
            i <= usages@.len(),
            cores@.len() == i,
            forall|k: int|
                0 <= k < i ==> (#[trigger] cores@[k]).name@ == core_name(k as nat)
                    && cores@[k].usage == usages@[k],
        decreases usages.len() - i,
    {
        cores.push(CoreInfo { name: core_label(i), usage: usages[i] });
        i = i + 1;
    }
    cores
}

/// State carried from one refresh to the next: recent total-usage samples
/// and each process's usage at the previous refresh.
pub struct SystemInfo {
    cpu_history: Vec<u32>,
    prev_cpu: HashMap<u32, u32>,
}

impl SystemInfo {
    /// The total-usage samples held, oldest first.
    pub closed spec fn history(&self) -> Seq<u32> {
        self.cpu_history@
    }

    /// Each process's usage at the previous refresh, by PID.
    pub closed spec fn previous_usage(&self) -> Map<u32, u32> {
        self.prev_cpu@
    }

    /// The history never holds more than `CPU_HISTORY_LEN` samples.
    #[verifier::type_invariant]
    spec fn history_is_bounded(self) -> bool {
        self.cpu_history@.len() <= CPU_HISTORY_LEN
    }

    /// The history of any state holds at most `CPU_HISTORY_LEN` samples.
    pub fn history_len(&self) -> (n: usize)
        ensures
            n == self.history().len(),
            n <= CPU_HISTORY_LEN,
    {
        proof {
            use_type_invariant(self);
        }
        self.cpu_history.len()
    }

    /// Fresh state: no samples, no previous usages.
    pub fn new() -> (s: Self)
        ensures
            s.history() == Seq::<u32>::empty(),
            s.previous_usage() == Map::<u32, u32>::empty(),
    {
        broadcast use vstd::std_specs::hash::group_hash_axioms;
        SystemInfo { cpu_history: Vec::new(), prev_cpu: HashMap::new() }
    }

    /// Records the total usage of a reading and builds the CPU panel's data.
    pub fn build_cpu_data(&mut self, r: &CpuReading) -> (d: CpuData)
        ensures
            final(self).history().len() <= CPU_HISTORY_LEN,
            is_cpu_data(*r, old(self).history(), d),
            final(self).history() == d.history@,
            final(self).previous_usage() == old(self).previous_usage(),
    {
        proof {
            use_type_invariant(&*self);
        }
        let total_usage = mean_of(&r.usages);
        let mut samples: Vec<u32> = Vec::new();
        std::mem::swap(&mut samples, &mut self.cpu_history);
        if samples.len() >= CPU_HISTORY_LEN {
            samples.remove(0);
        }
        samples.push(total_usage);
        let history = samples.clone();
        assert(history@ =~= samples@);
        self.cpu_history = samples;
        CpuData {
            brand: brand_label(&r.brand),
            total_usage,
            cores: core_list(&r.usages),
            history,
            load_avg: r.load_avg,
        }
    }

    /// Builds the process table and the activity list, then remembers each
    /// process's usage for the next refresh.
    pub fn build_process_data(
        &mut self,
        readings: &Vec<ProcessReading>,
        sort_by: SortBy,
    ) -> (r: (Vec<ProcessInfo>, Vec<ActiveProcess>))
        ensures
            final(self).history() == old(self).history(),
            is_process_table(readings@, sort_by, r.0@),
            is_activity_list(old(self).previous_usage(), r.0@, r.1@),
            final(self).previous_usage() == usage_map(r.0@),
    {
        proof {
            use_type_invariant(&*self);
        }
        let processes = process_table(readings, sort_by);
        let active = activity_list(&processes, &self.prev_cpu);
        self.prev_cpu = usage_by_pid(&processes);
        (processes, active)
    }

    /// One refresh: the snapshot that a reading shows, given the state left
    /// by the previous refresh.
    pub fn refresh(&mut self, reading: &Reading, sort_by: SortBy) -> (snap: Snapshot)
        ensures
            final(self).history().len() <= CPU_HISTORY_LEN,
            is_cpu_data(reading.cpu, old(self).history(), snap.cpu),
            final(self).history() == snap.cpu.history@,
            snap.mem == mem_data_of(reading.mem),
            snap.uptime_secs == reading.uptime_secs,
            is_process_table(reading.processes@, sort_by, snap.processes@),
            is_activity_list(old(self).previous_usage(), snap.processes@, snap.active@),
            final(self).previous_usage() == usage_map(snap.processes@),
    {
        let cpu = self.build_cpu_data(&reading.cpu);
        let mem = MemData::from_reading(reading.mem);
        let (processes, active) = self.build_process_data(&reading.processes, sort_by);
        Snapshot { cpu, mem, processes, active, uptime_secs: reading.uptime_secs }
    }
}

/// Cycling through the sort columns returns to the start after four steps,
/// and each step changes the column and its label.
pub proof fn sort_columns_cycle(s: SortBy)
    ensures
        spec_next(spec_next(spec_next(spec_next(s)))) == s,
        spec_next(s) != s,
        spec_label(spec_next(s)) != spec_label(s),
{
    reveal_strlit("CPU%");
    assert(spec_label(SortBy::Cpu)[0] != spec_label(SortBy::Memory)[0]);
    assert(spec_label(SortBy::Memory)[0] != spec_label(SortBy::Pid)[0]);
    assert(spec_label(SortBy::Pid)[0] != spec_label(SortBy::Name)[0]);
    assert(spec_label(SortBy::Name)[0] != spec_label(SortBy::Cpu)[0]);
}

/// `a` may stand before `b` in a table ordered by `by`: highest CPU or
/// memory first, lowest PID first, names ascending.
pub open spec fn in_column_order(by: SortBy, a: ProcessInfo, b: ProcessInfo) -> bool {
    match by {
        SortBy::Cpu => a.cpu_percent >= b.cpu_percent,
        SortBy::Memory => a.mem_bytes >= b.mem_bytes,
        SortBy::Pid => a.pid <= b.pid,
        SortBy::Name => !seq_lt(b.name@, a.name@),
    }
}

/// Row `p` shows one of the readings.
pub open spec fn shows_some_reading(p: ProcessInfo, readings: Seq<ProcessReading>) -> bool {
    exists|r: int| 0 <= r < readings.len() && shows_reading(p, #[trigger] readings[r])
}

/// Entry `a` describes the change of one of the rows.
pub open spec fn shows_some_change(a: ActiveProcess, table: Seq<ProcessInfo>, prev: Map<u32, u32>) -> bool {
    exists|r: int| 0 <= r < table.len() && shows_change(a, #[trigger] table[r], prev)
}

/// The process table has one row per reading, each row shows a reading, and
/// the rows are ordered by the chosen column.
pub proof fn process_table_is_ordered(
    readings: Seq<ProcessReading>,
    by: SortBy,
    table: Seq<ProcessInfo>,
)
    requires
        is_process_table(readings, by, table),
    ensures
        table.len() == readings.len(),
        forall|i: int, j: int|
            0 <= i < j < table.len() ==> in_column_order(by, #[trigger] table[i], #[trigger] table[j]),
        forall|k: int| 0 <= k < table.len() ==> shows_some_reading(#[trigger] table[k], readings),
{
    let (rows, perm) = choose|rows: Seq<ProcessInfo>, perm: Seq<int>|
        {
            &&& rows.len() == readings.len()
            &&& forall|i: int| 0 <= i < rows.len() ==> shows_reading(#[trigger] rows[i], readings[i])
            &&& is_stable_sort(rows, table, perm, by)
        };
    lemma_stable_sort_is_sorted(rows, table, perm, by);
    assert forall|k: int| 0 <= k < table.len() implies shows_some_reading(#[trigger] table[k], readings) by {
        assert(table[k] == rows[perm[k]]);
        assert(shows_reading(rows[perm[k]], readings[perm[k]]));
    }
}

proof fn lemma_rapid_rows(prev: Map<u32, u32>, table: Seq<ProcessInfo>)
    ensures
        rapid_rows(prev, table).len() <= table.len(),
        forall|i: int|
            0 <= i < rapid_rows(prev, table).len() ==> is_rapid(prev, #[trigger] rapid_rows(prev, table)[i])
                && table.contains(rapid_rows(prev, table)[i]),
        (forall|i: int| 0 <= i < table.len() ==> !is_rapid(prev, #[trigger] table[i])) ==> rapid_rows(
            prev,
            table,
        ).len() == 0,
    decreases table.len(),
{
    if table.len() > 0 {
        let t = table.drop_last();
        lemma_rapid_rows(prev, t);
        assert forall|i: int| 0 <= i < rapid_rows(prev, table).len() implies is_rapid(
            prev,
            #[trigger] rapid_rows(prev, table)[i],
        ) && table.contains(rapid_rows(prev, table)[i]) by {
            if i < rapid_rows(prev, t).len() {
                let x = rapid_rows(prev, t)[i];
                assert(t.contains(x));
                let j = choose|j: int| 0 <= j < t.len() && t[j] == x;
                assert(table[j] == x);
            } else {
                assert(table[table.len() - 1] == table.last());
            }
        }
        if forall|i: int| 0 <= i < table.len() ==> !is_rapid(prev, #[trigger] table[i]) {
            assert forall|i: int| 0 <= i < t.len() implies !is_rapid(prev, #[trigger] t[i]) by {
                assert(t[i] == table[i]);
            }
            assert(table[table.len() - 1] == table.last());
        }
    }
}

/// The activity list holds at most `MAX_ACTIVE` entries, each a row of the
/// table whose usage moved by at least the threshold, marked rising exactly
/// when its usage went up, largest change first.
pub proof fn activity_list_properties(
    prev: Map<u32, u32>,
    table: Seq<ProcessInfo>,
    active: Seq<ActiveProcess>,
)
    requires
        is_activity_list(prev, table, active),
    ensures
        active.len() <= MAX_ACTIVE,
        forall|k: int|
            0 <= k < active.len() ==> abs((#[trigger] active[k]).delta as int) >= ACTIVITY_THRESHOLD,
        forall|k: int|
            0 <= k < active.len() ==> ((#[trigger] active[k]).trend == Trend::Rising <==> active[k].delta
                > 0),
        forall|i: int, j: int|
            0 <= i < j < active.len() ==> abs((#[trigger] active[i]).delta as int) >= abs(
                (#[trigger] active[j]).delta as int,
            ),
        forall|k: int| 0 <= k < active.len() ==> shows_some_change(#[trigger] active[k], table, prev),
{
    let rapid = rapid_rows(prev, table);
    let (changes, sorted, perm) = choose|
        changes: Seq<ActiveProcess>,
        sorted: Seq<ActiveProcess>,
        perm: Seq<int>,
    |
        {
            &&& changes.len() == rapid.len()
            &&& forall|i: int|
                0 <= i < changes.len() ==> shows_change(#[trigger] changes[i], rapid[i], prev)
            &&& is_stable_sort(changes, sorted, perm, LargestChange)
            &&& active == sorted.take(min(MAX_ACTIVE as int, sorted.len() as int))
        };
    lemma_rapid_rows(prev, table);
    lemma_stable_sort_is_sorted(changes, sorted, perm, LargestChange);
    assert forall|k: int| 0 <= k < active.len() implies abs((#[trigger] active[k]).delta as int)
        >= ACTIVITY_THRESHOLD && (active[k].trend == Trend::Rising <==> active[k].delta > 0)
        && shows_some_change(active[k], table, prev) by {
        assert(active[k] == sorted[k]);
        assert(sorted[k] == changes[perm[k]]);
        assert(shows_change(changes[perm[k]], rapid[perm[k]], prev));
        assert(is_rapid(prev, rapid[perm[k]]));
        assert(table.contains(rapid[perm[k]]));
        let r = choose|r: int| 0 <= r < table.len() && table[r] == rapid[perm[k]];
        assert(shows_change(active[k], table[r], prev));
    }
    assert forall|i: int, j: int| 0 <= i < j < active.len() implies abs(
        (#[trigger] active[i]).delta as int,
    ) >= abs((#[trigger] active[j]).delta as int) by {
        assert(active[i] == sorted[i] && active[j] == sorted[j]);
        assert(!sorted[j].spec_precedes(sorted[i], LargestChange));
    }
}

proof fn lemma_rapid_row_listed(prev: Map<u32, u32>, table: Seq<ProcessInfo>, r: int)
    requires
        0 <= r < table.len(),
        is_rapid(prev, table[r]),
    ensures
        exists|m: int|
            0 <= m < rapid_rows(prev, table).len() && #[trigger] rapid_rows(prev, table)[m] == table[r],
    decreases table.len(),
{
    let t = table.drop_last();
    if r == table.len() - 1 {
        let m = rapid_rows(prev, t).len() as int;
        assert(rapid_rows(prev, table)[m] == table[r]);
    } else {
        assert(t[r] == table[r]);
        lemma_rapid_row_listed(prev, t, r);
        let m = choose|m: int| 0 <= m < rapid_rows(prev, t).len() && #[trigger] rapid_rows(prev, t)[m] == t[r];
        assert(rapid_rows(prev, table)[m] == table[r]);
    }
}

/// The activity list holds exactly the large changes: each entry is a row of
/// the table that was seen at the previous refresh and whose CPU usage moved
/// by at least `ACTIVITY_THRESHOLD` since, up or down, with that change; and
/// no large change is left out: every such row stands in the list, unless the
/// list already holds `MAX_ACTIVE` entries whose changes are at least as large.
pub proof fn activity_list_is_complete(
    prev: Map<u32, u32>,
    table: Seq<ProcessInfo>,
    active: Seq<ActiveProcess>,
)
    requires
        is_activity_list(prev, table, active),
    ensures
        forall|r: int|
            #![trigger table[r]]
            0 <= r < table.len() && prev.contains_key(table[r].pid) && (table[r].cpu_percent
                - prev[table[r].pid] >= ACTIVITY_THRESHOLD || prev[table[r].pid] - table[r].cpu_percent
                >= ACTIVITY_THRESHOLD) ==> (exists|k: int|
                0 <= k < active.len() && (#[trigger] active[k]).pid == table[r].pid && active[k].name@
                    == table[r].name@ && active[k].delta == table[r].cpu_percent - prev[table[r].pid])
                || (active.len() == MAX_ACTIVE && forall|k: int|
                0 <= k < active.len() ==> abs((#[trigger] active[k]).delta as int) >= abs(
                    table[r].cpu_percent - prev[table[r].pid],
                )),
        forall|k: int|
            0 <= k < active.len() ==> exists|r: int|
                #![trigger table[r]]
                0 <= r < table.len() && table[r].pid == (#[trigger] active[k]).pid && active[k].name@
                    == table[r].name@ && prev.contains_key(table[r].pid) && active[k].delta
                    == table[r].cpu_percent - prev[table[r].pid] && (active[k].delta >= ACTIVITY_THRESHOLD
                    || active[k].delta <= -ACTIVITY_THRESHOLD),
{
    activity_list_properties(prev, table, active);
    assert forall|k: int| 0 <= k < active.len() implies exists|r: int|
        #![trigger table[r]]
        0 <= r < table.len() && table[r].pid == (#[trigger] active[k]).pid && active[k].name@
            == table[r].name@ && prev.contains_key(table[r].pid) && active[k].delta
            == table[r].cpu_percent - prev[table[r].pid] && (active[k].delta >= ACTIVITY_THRESHOLD
            || active[k].delta <= -ACTIVITY_THRESHOLD) by {
        assert(shows_some_change(active[k], table, prev));
        let r = choose|r: int| 0 <= r < table.len() && shows_change(active[k], #[trigger] table[r], prev);
        if !prev.contains_key(table[r].pid) {
            assert(active[k].delta == 0);
        }
    }
    let rapid = rapid_rows(prev, table);
    let (changes, sorted, perm) = choose|
        changes: Seq<ActiveProcess>,
        sorted: Seq<ActiveProcess>,
        perm: Seq<int>,
    |
        {
            &&& changes.len() == rapid.len()
            &&& forall|i: int|
                0 <= i < changes.len() ==> shows_change(#[trigger] changes[i], rapid[i], prev)
            &&& is_stable_sort(changes, sorted, perm, LargestChange)
            &&& active == sorted.take(min(MAX_ACTIVE as int, sorted.len() as int))
        };
    lemma_stable_sort_is_sorted(changes, sorted, perm, LargestChange);
    assert forall|r: int|
        #![trigger table[r]]
        0 <= r < table.len() && prev.contains_key(table[r].pid) && (table[r].cpu_percent
            - prev[table[r].pid] >= ACTIVITY_THRESHOLD || prev[table[r].pid] - table[r].cpu_percent
            >= ACTIVITY_THRESHOLD) implies (exists|k: int|
            0 <= k < active.len() && (#[trigger] active[k]).pid == table[r].pid && active[k].name@
                == table[r].name@ && active[k].delta == table[r].cpu_percent - prev[table[r].pid])
            || (active.len() == MAX_ACTIVE && forall|k: int|
            0 <= k < active.len() ==> abs((#[trigger] active[k]).delta as int) >= abs(
                table[r].cpu_percent - prev[table[r].pid],
            )) by {
        let p = table[r];
        let d = p.cpu_percent - prev[p.pid];
        assert(usage_delta(prev, p) == d);
        assert(is_rapid(prev, p));
        lemma_rapid_row_listed(prev, table, r);
        let m = choose|m: int| 0 <= m < rapid.len() && #[trigger] rapid[m] == p;
        assert(shows_change(changes[m], rapid[m], prev));
        stable_sort_keeps_every_item(changes, sorted, perm, LargestChange, m);
        let q = choose|q: int| 0 <= q < sorted.len() && #[trigger] perm[q] == m && sorted[q] == changes[m];
        if q < active.len() {
            assert(active[q] == sorted[q]);
        } else {
            assert forall|k: int| 0 <= k < active.len() implies abs((#[trigger] active[k]).delta as int)
                >= abs(d) by {
                assert(active[k] == sorted[k]);
                assert(!sorted[q].spec_precedes(sorted[k], LargestChange));
            }
        }
    }
}

/// A process seen for the first time counts as unchanged, so it is never a
/// rapid change.
pub proof fn new_process_is_not_rapid(prev: Map<u32, u32>, p: ProcessInfo)
    requires
        !prev.contains_key(p.pid),
    ensures
        !is_rapid(prev, p),
{
}

/// No two rows of the table share a PID.
pub open spec fn distinct_pids(table: Seq<ProcessInfo>) -> bool {
    forall|i: int, j: int| 0 <= i < j < table.len() ==> (#[trigger] table[i]).pid != (#[trigger] table[j]).pid
}

/// The usages remembered after a refresh are those of its rows: every row's
/// PID maps to its own usage when PIDs are distinct.
pub proof fn usage_map_records_rows(table: Seq<ProcessInfo>)
    requires
        distinct_pids(table),
    ensures
        forall|i: int|
            0 <= i < table.len() ==> usage_map(table).contains_key((#[trigger] table[i]).pid)
                && usage_map(table)[table[i].pid] == table[i].cpu_percent,
        forall|pid: u32|
            usage_map(table).contains_key(pid) ==> exists|i: int|
                0 <= i < table.len() && (#[trigger] table[i]).pid == pid,
    decreases table.len(),
{
    if table.len() > 0 {
        let t = table.drop_last();
        assert forall|i: int, j: int| 0 <= i < j < t.len() implies (#[trigger] t[i]).pid != (
        #[trigger] t[j]).pid by {
            assert(t[i] == table[i] && t[j] == table[j]);
        }
        usage_map_records_rows(t);
        assert forall|i: int| 0 <= i < table.len() implies usage_map(table).contains_key(
            (#[trigger] table[i]).pid,
        ) && usage_map(table)[table[i].pid] == table[i].cpu_percent by {
            if i < table.len() - 1 {
                assert(table[i] == t[i]);
                assert(table[i].pid != table[table.len() - 1].pid);
            }
        }
        assert forall|pid: u32| usage_map(table).contains_key(pid) implies exists|i: int|
            0 <= i < table.len() && (#[trigger] table[i]).pid == pid by {
            if pid == table.last().pid {
                assert(table[table.len() - 1].pid == pid);
            } else {
                assert(usage_map(t).contains_key(pid));
                let i = choose|i: int| 0 <= i < t.len() && (#[trigger] t[i]).pid == pid;
                assert(table[i] == t[i]);
            }
        }
    }
}

/// Refreshing with unchanged usage shows no rapid change: measured against
/// the usages it remembered itself, a table with distinct PIDs has an empty
/// activity list.
pub proof fn unchanged_usage_has_no_activity(table: Seq<ProcessInfo>, active: Seq<ActiveProcess>)
    requires
        distinct_pids(table),
        is_activity_list(usage_map(table), table, active),
    ensures
        active.len() == 0,
{
    let prev = usage_map(table);
    usage_map_records_rows(table);
    assert forall|i: int| 0 <= i < table.len() implies !is_rapid(prev, #[trigger] table[i]) by {
        assert(prev_usage(prev, table[i]) == table[i].cpu_percent);
    }
    lemma_rapid_rows(prev, table);
    let (changes, sorted, perm) = choose|
        changes: Seq<ActiveProcess>,
        sorted: Seq<ActiveProcess>,
        perm: Seq<int>,
    |
        {
            &&& changes.len() == rapid_rows(prev, table).len()
            &&& forall|i: int|
                0 <= i < changes.len() ==> shows_change(
                    #[trigger] changes[i],
                    rapid_rows(prev, table)[i],
                    prev,
                )
            &&& is_stable_sort(changes, sorted, perm, LargestChange)
            &&& active == sorted.take(min(MAX_ACTIVE as int, sorted.len() as int))
        };
}

/// Every process on the activity list changed by at least the threshold
/// against its own usage at the previous refresh.
pub proof fn active_processes_changed_since_last_refresh(
    prev_table: Seq<ProcessInfo>,
    table: Seq<ProcessInfo>,
    active: Seq<ActiveProcess>,
)
    requires
        distinct_pids(prev_table),
        is_activity_list(usage_map(prev_table), table, active),
    ensures
        forall|k: int, j: int|
            0 <= k < active.len() && 0 <= j < prev_table.len() && (#[trigger] prev_table[j]).pid
                == (#[trigger] active[k]).pid ==> abs(active[k].cpu_percent - prev_table[j].cpu_percent)
                >= ACTIVITY_THRESHOLD,
{
    let prev = usage_map(prev_table);
    usage_map_records_rows(prev_table);
    activity_list_properties(prev, table, active);
    assert forall|k: int, j: int|
        0 <= k < active.len() && 0 <= j < prev_table.len() && (#[trigger] prev_table[j]).pid == (
        #[trigger] active[k]).pid implies abs(active[k].cpu_percent - prev_table[j].cpu_percent)
        >= ACTIVITY_THRESHOLD by {
        assert(shows_some_change(active[k], table, prev));
        let r = choose|r: int| 0 <= r < table.len() && shows_change(active[k], #[trigger] table[r], prev);
        assert(prev.contains_key(prev_table[j].pid));
        assert(prev_usage(prev, table[r]) == prev_table[j].cpu_percent);
    }
}

/// The history after recording each of `samples` in turn, from empty.
pub open spec fn history_of(samples: Seq<u32>) -> Seq<u32>
    decreases samples.len(),
{
    if samples.len() == 0 {
        Seq::empty()
    } else {
        history_after(history_of(samples.drop_last()), samples.last())
    }
}

/// The history holds exactly the latest `CPU_HISTORY_LEN` samples, oldest
/// first.
pub proof fn history_keeps_latest(samples: Seq<u32>)
    ensures
        history_of(samples) == samples.subrange(
            if samples.len() > CPU_HISTORY_LEN { samples.len() - CPU_HISTORY_LEN } else { 0 },
            samples.len() as int,
        ),
        history_of(samples).len() <= CPU_HISTORY_LEN,
    decreases samples.len(),
{
    if samples.len() > 0 {
        let s = samples.drop_last();
        history_keeps_latest(s);
        let n = samples.len();
        if n - 1 >= CPU_HISTORY_LEN {
            assert(s.subrange(n - 1 - CPU_HISTORY_LEN, n - 1).drop_first().push(samples.last())
                =~= samples.subrange(n - CPU_HISTORY_LEN, n as int));
        } else {
            assert(s.subrange(0, n - 1).push(samples.last()) =~= samples.subrange(0, n as int));
        }
    } else {
        assert(samples.subrange(0, 0) =~= Seq::<u32>::empty());
    }
}

/// Used memory is what is not available: used plus available is the total,
/// unless the system reports more available than total.
pub proof fn used_plus_available_is_total(m: MemReading)
    ensures
        m.available <= m.total ==> mem_data_of(m).used_bytes + mem_data_of(m).available_bytes
            == mem_data_of(m).total_bytes,
        mem_data_of(m).used_bytes <= mem_data_of(m).total_bytes,
{
}

} // verus!

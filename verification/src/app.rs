use vstd::prelude::*;
use crate::system::{Reading, Snapshot, SortBy, SystemInfo, CPU_HISTORY_LEN, is_cpu_data, is_process_table,
    is_activity_list, usage_map, mem_data_of};

verus! {

/// A key of the keyboard, as far as navigation distinguishes keys.
#[derive(Debug, Clone, Copy, PartialEq, Eq, Structural)]
pub enum Key {
    Down,
    Up,
    PageDown,
    PageUp,
    Home,
    End,
    Char(char),
    Other,
}

/// What a key press does to the selected row of the process table.
#[derive(Debug, Clone, Copy, PartialEq, Eq, Structural)]
pub enum Move {
    /// Down by this many rows, stopping at the last row.
    Down(usize),
    /// Up by this many rows, stopping at the first row.
    Up(usize),
    /// To the first row.
    Top,
    /// To the last row.
    Bottom,
    /// Nothing.
    Ignore,
}

/// The navigation keys: arrows and Ctrl+N / Ctrl+P move one row, Page Down /
/// Page Up ten rows, Home and End jump to the first and last row.
pub open spec fn key_move(key: Key, ctrl: bool) -> Move {
    match key {
        Key::Down => Move::Down(1),
        Key::Up => Move::Up(1),
        Key::Char(c) => if ctrl && c == 'n' {
            Move::Down(1)
        } else if ctrl && c == 'p' {
            Move::Up(1)
        } else {
            Move::Ignore
        },
        Key::PageDown => Move::Down(10),
        Key::PageUp => Move::Up(10),
        Key::Home => Move::Top,
        Key::End => Move::Bottom,
        Key::Other => Move::Ignore,
    }
}

/// The index of the last row of a table of `count` rows (0 when empty).
pub open spec fn last_row(count: int) -> int {
    if count > 0 { count - 1 } else { 0 }
}

/// The selected row after move `m` in a table of `count` rows.
pub open spec fn selection_after(sel: int, count: int, m: Move) -> int {
    match m {
        Move::Down(n) => if sel + n <= last_row(count) { sel + n } else { last_row(count) },
        Move::Up(n) => if sel >= n { sel - n } else { 0 },
        Move::Top => 0,
        Move::Bottom => last_row(count),
        Move::Ignore => sel,
    }
}

/// The number of rows of the process table a snapshot shows (0 without one).
pub open spec fn row_count(snapshot: Option<Snapshot>) -> int {
    match snapshot {
        Some(s) => s.processes@.len() as int,
        None => 0,
    }
}

/// The step of a downward move, so that callers can see it fits.
pub open spec fn down_step(m: Move) -> int {
    match m {
        Move::Down(n) => n as int,
        _ => 0,
    }
}

/// Ctrl+C: the one key that quits.
pub open spec fn is_quit_key(key: Key, ctrl: bool) -> bool {
    ctrl && key == Key::Char('c')
}

/// A key can be handled with the selection at `sel` without the index
/// overflowing: Ctrl+C always, any other key when its downward step fits.
pub open spec fn key_fits(sel: int, key: Key, ctrl: bool) -> bool {
    is_quit_key(key, ctrl) || sel + down_step(key_move(key, ctrl)) <= usize::MAX
}

/// UI state between frames.
pub struct App {
    pub should_quit: bool,
    pub snapshot: Option<Snapshot>,
    pub selected_process: usize,
    pub sort_by: SortBy,
    pub tick: u64,
    pub refresh_ms: u64,
    /// The state carried between refreshes.
    pub collector: SystemInfo,
}

impl App {
    /// The collector's CPU history.
    pub open spec fn history(&self) -> Seq<u32> {
        self.collector.history()
    }

    /// Each process's usage at the last refresh.
    pub open spec fn previous_usage(&self) -> Map<u32, u32> {
        self.collector.previous_usage()
    }

    /// A new app that shows the first reading, sorted by CPU, with the first
    /// row selected.
    pub fn new(refresh_ms: u64, first: &Reading) -> (app: App)
        ensures
            app.history().len() <= CPU_HISTORY_LEN,
            !app.should_quit,
            app.selected_process == 0,
            app.sort_by == SortBy::Cpu,
            app.tick == 0,
            app.refresh_ms == refresh_ms,
            app.snapshot is Some,
            is_cpu_data(first.cpu, Seq::empty(), app.snapshot->0.cpu),
            app.snapshot->0.mem == mem_data_of(first.mem),
            app.snapshot->0.uptime_secs == first.uptime_secs,
            is_process_table(first.processes@, SortBy::Cpu, app.snapshot->0.processes@),
            is_activity_list(Map::empty(), app.snapshot->0.processes@, app.snapshot->0.active@),
            app.history() == app.snapshot->0.cpu.history@,
            app.previous_usage() == usage_map(app.snapshot->0.processes@),
    {
        let mut collector = SystemInfo::new();
        let sort_by = SortBy::Cpu;
        let snapshot = collector.refresh(first, sort_by);
        App {
            should_quit: false,
            snapshot: Some(snapshot),
            selected_process: 0,
            sort_by,
            tick: 0,
            refresh_ms,
            collector,
        }
    }

    /// A refresh: counts the tick (wrapping) and shows the new reading.
    pub fn on_tick(&mut self, reading: &Reading)
        ensures
            final(self).history().len() <= CPU_HISTORY_LEN,
            final(self).tick == (if old(self).tick == u64::MAX { 0 } else { old(self).tick + 1 }),
            final(self).snapshot is Some,
            is_cpu_data(reading.cpu, old(self).history(), final(self).snapshot->0.cpu),
            final(self).snapshot->0.mem == mem_data_of(reading.mem),
            final(self).snapshot->0.uptime_secs == reading.uptime_secs,
            is_process_table(reading.processes@, old(self).sort_by, final(self).snapshot->0.processes@),
            is_activity_list(
                old(self).previous_usage(),
                final(self).snapshot->0.processes@,
                final(self).snapshot->0.active@,
            ),
            final(self).history() == final(self).snapshot->0.cpu.history@,
            final(self).previous_usage() == usage_map(final(self).snapshot->0.processes@),
            final(self).selected_process == old(self).selected_process,
            final(self).sort_by == old(self).sort_by,
            final(self).should_quit == old(self).should_quit,
            final(self).refresh_ms == old(self).refresh_ms,
    {
        self.tick = self.tick.wrapping_add(1);
        let snap = self.collector.refresh(reading, self.sort_by);
        self.snapshot = Some(snap);
    }

    /// Handles a navigation key; returns whether the key was one. Ctrl+C is
    /// not handled here (see `handle_key`).
    pub fn on_key(&mut self, key: Key, ctrl: bool) -> (handled: bool)
        requires
            old(self).selected_process + down_step(key_move(key, ctrl)) <= usize::MAX,
        ensures
            handled == (key_move(key, ctrl) != Move::Ignore),
            final(self).selected_process == selection_after(
                old(self).selected_process as int,
                row_count(old(self).snapshot),
                key_move(key, ctrl),
            ),
            final(self).snapshot == old(self).snapshot,
            final(self).should_quit == old(self).should_quit,
            final(self).sort_by == old(self).sort_by,
            final(self).tick == old(self).tick,
            final(self).refresh_ms == old(self).refresh_ms,
            final(self).history() == old(self).history(),
            final(self).previous_usage() == old(self).previous_usage(),
    {
        match key {
            Key::Down => {
                self.process_move(1);
                true
            },
            Key::Up => {
                self.process_move_back(1);
                true
            },
            Key::Char(c) => {
                if ctrl && c == 'n' {
                    self.process_move(1);
                    true
                } else if ctrl && c == 'p' {
                    self.process_move_back(1);
                    true
                } else {
                    false
                }
            },
            Key::PageDown => {
                self.process_move(10);
                true
            },
            Key::PageUp => {
                self.process_move_back(10);
                true
            },
            Key::Home => {
                self.selected_process = 0;
                true
            },
            Key::End => {
                self.selected_process = self.process_count().saturating_sub(1);
                true
            },
            Key::Other => false,
        }
    }

    /// Whether `handle_key` can take this key now (see `key_fits`).
    pub fn accepts_key(&self, key: Key, ctrl: bool) -> (ok: bool)
        ensures
            ok == key_fits(self.selected_process as int, key, ctrl),
    {
        if ctrl && key == Key::Char('c') {
            return true;
        }
        let step: usize = match key {
            Key::Down => 1,
            Key::PageDown => 10,
            Key::Char(c) => if ctrl && c == 'n' { 1 } else { 0 },
            _ => 0,
        };
        self.selected_process <= usize::MAX - step
    }

    /// A key event of the main loop: Ctrl+C asks to quit, any other key goes
    /// to `on_key`.
    pub fn handle_key(&mut self, key: Key, ctrl: bool)
        requires
            key_fits(old(self).selected_process as int, key, ctrl),
        ensures
            ctrl && key == Key::Char('c') ==> final(self).should_quit
                && final(self).selected_process == old(self).selected_process,
            !(ctrl && key == Key::Char('c')) ==> final(self).should_quit == old(self).should_quit
                && final(self).selected_process == selection_after(
                old(self).selected_process as int,
                row_count(old(self).snapshot),
                key_move(key, ctrl),
            ),
            final(self).snapshot == old(self).snapshot,
            final(self).sort_by == old(self).sort_by,
            final(self).tick == old(self).tick,
            final(self).refresh_ms == old(self).refresh_ms,
            final(self).history() == old(self).history(),
            final(self).previous_usage() == old(self).previous_usage(),
    {
        if ctrl && key == Key::Char('c') {
            self.should_quit = true;
        } else {
            self.on_key(key, ctrl);
        }
    }

    fn process_move(&mut self, n: usize)
        requires
            old(self).selected_process + n <= usize::MAX,
        ensures
            final(self).selected_process == selection_after(
                old(self).selected_process as int,
                row_count(old(self).snapshot),
                Move::Down(n),
            ),
            final(self).snapshot == old(self).snapshot,
            final(self).should_quit == old(self).should_quit,
            final(self).sort_by == old(self).sort_by,
            final(self).tick == old(self).tick,
            final(self).refresh_ms == old(self).refresh_ms,
            final(self).collector == old(self).collector,
    {
        let max = self.process_count().saturating_sub(1);
        let next = self.selected_process + n;
        self.selected_process = if next <= max { next } else { max };
    }

    fn process_move_back(&mut self, n: usize)
        ensures
            final(self).selected_process == selection_after(
                old(self).selected_process as int,
                row_count(old(self).snapshot),
                Move::Up(n),
            ),
            final(self).snapshot == old(self).snapshot,
            final(self).should_quit == old(self).should_quit,
            final(self).sort_by == old(self).sort_by,
            final(self).tick == old(self).tick,
            final(self).refresh_ms == old(self).refresh_ms,
            final(self).collector == old(self).collector,
    {
        self.selected_process = self.selected_process.saturating_sub(n);
    }

    /// The number of rows of the process table (0 before the first snapshot).
    pub fn process_count(&self) -> (n: usize)
        ensures
            n == row_count(self.snapshot),
    {
        match &self.snapshot {
            Some(s) => s.processes.len(),
            None => 0,
        }
    }

    /// The name of the selected process, if the selection is on a row.
    pub fn selected_process_name(&self) -> (name: Option<&str>)
        ensures
            name is Some <==> (self.snapshot is Some && self.selected_process
                < self.snapshot->0.processes@.len()),
            name is Some ==> name->0@ == self.snapshot->0.processes@[self.selected_process as int].name@,
    {
        match &self.snapshot {
            Some(s) => {
                if self.selected_process < s.processes.len() {
                    Some(s.processes[self.selected_process].name.as_str())
                } else {
                    None
                }
            },
            None => None,
        }
    }
}

/// A selection on a row of the table stays on a row after any move.
pub proof fn selection_stays_on_rows(sel: int, count: int, m: Move)
    requires
        0 <= sel <= last_row(count),
    ensures
        0 <= selection_after(sel, count, m) <= last_row(count),
{
}

/// A move never takes the selection below the first row, and moving down
/// never leaves it past the last row.
pub proof fn moves_stay_in_range(sel: int, count: int, n: usize)
    requires
        0 <= sel,
    ensures
        0 <= selection_after(sel, count, Move::Up(n)),
        selection_after(sel, count, Move::Down(n)) <= if sel <= last_row(count) { last_row(count) } else { sel },
{
}

/// Moving down and back up by the same step returns to the same row when
/// the move down did not hit the last row.
pub proof fn down_then_up_returns(sel: int, count: int, n: usize)
    requires
        0 <= sel,
        sel + n <= last_row(count),
    ensures
        selection_after(selection_after(sel, count, Move::Down(n)), count, Move::Up(n)) == sel,
{
}

/// `k` moves of `m` in a row.
pub open spec fn repeat_move(sel: int, count: int, m: Move, k: nat) -> int
    decreases k,
{
    if k == 0 { sel } else { selection_after(repeat_move(sel, count, m, (k - 1) as nat), count, m) }
}

/// Page Down and Page Up jump as far as ten single steps do.
pub proof fn page_is_ten_steps(sel: int, count: int)
    requires
        0 <= sel,
    ensures
        selection_after(sel, count, Move::Down(10)) == repeat_move(sel, count, Move::Down(1), 10),
        selection_after(sel, count, Move::Up(10)) == repeat_move(sel, count, Move::Up(1), 10),
{
    reveal_with_fuel(repeat_move, 11);
}

/// Ctrl+N and Ctrl+P are the same moves as Down and Up: `on_key` reports
/// them handled alike and leaves the same selection.
pub proof fn ctrl_n_p_act_like_arrows(sel: int, count: int, ctrl: bool)
    ensures
        key_move(Key::Char('n'), true) == key_move(Key::Down, ctrl),
        key_move(Key::Char('p'), true) == key_move(Key::Up, ctrl),
        selection_after(sel, count, key_move(Key::Char('n'), true)) == selection_after(
            sel,
            count,
            key_move(Key::Down, ctrl),
        ),
        selection_after(sel, count, key_move(Key::Char('p'), true)) == selection_after(
            sel,
            count,
            key_move(Key::Up, ctrl),
        ),
{
}

/// Any key keeps a selection that is on a row of the table on a row.
pub proof fn keys_keep_selection_on_rows(sel: int, count: int, key: Key, ctrl: bool)
    requires
        0 <= sel <= last_row(count),
    ensures
        0 <= selection_after(sel, count, key_move(key, ctrl)) <= last_row(count),
{
}

/// Home selects the first row and End the last.
pub proof fn home_and_end(sel: int, count: int)
    ensures
        selection_after(sel, count, key_move(Key::Home, false)) == 0,
        selection_after(sel, count, key_move(Key::End, false)) == last_row(count),
        count > 0 ==> last_row(count) == count - 1,
{
}

/// A refresh is due once the refresh interval has elapsed since the last one.
pub fn tick_due(elapsed_ms: u64, refresh_ms: u64) -> (due: bool)
    ensures
        due == (elapsed_ms >= refresh_ms),
{
    elapsed_ms >= refresh_ms
}

/// How long to wait for input before the next refresh is due (0 if it is
/// overdue).
pub fn poll_timeout_ms(elapsed_ms: u64, refresh_ms: u64) -> (wait: u64)
    ensures
        wait == (if refresh_ms >= elapsed_ms { refresh_ms - elapsed_ms } else { 0 }),
{
    refresh_ms.saturating_sub(elapsed_ms)
}

} // verus!

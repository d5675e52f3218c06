//! The monitor's state and every change that a refresh or a key makes to it.

use vstd::prelude::*;
use crate::cli::Config;
use crate::process::{
    lemma_matching_is_valid, matching, matching_indices, name_owners, rows_of, rows_view, sort_rows,
    sorted_by, users_view, valid_indices, ProcessInfo, ProcessSample, ProcessView, SortBy, UserEntry,
};
use crate::text::{clear_string, copy_text, pop_char, push_char};

verus! {

/// The number of views, one per tab.
pub const TAB_COUNT: usize = 5;

/// The sum of a list of counters.
pub open spec fn total(s: Seq<u64>) -> nat
    decreases s.len(),
{
    if s.len() == 0 {
        0
    } else {
        total(s.drop_last()) + (s.last() as nat)
    }
}

/// The sum of the counters, or `None` when it does not fit in a `u64`.
pub fn checked_total(values: &Vec<u64>) -> (r: Option<u64>)
    ensures
        match r {
            Some(t) => total(values@) <= u64::MAX && t as nat == total(values@),
            None => total(values@) > u64::MAX,
        },
{
    let mut sum: u64 = 0;
    let mut i: usize = 0;
    while i < values.len()
        invariant
            i <= values.len(),
            sum as nat == total(values@.take(i as int)),
        decreases values.len() - i,
    {
        assert(values@.take(i + 1).drop_last() =~= values@.take(i as int));
        if sum > u64::MAX - values[i] {
            proof {
                lemma_total_prefix(values@, i + 1);
            }
            return None;
        }
        sum = sum + values[i];
        i = i + 1;
    }
    assert(values@.take(i as int) =~= values@);
    Some(sum)
}

/// A prefix sums to no more than the whole list.
pub proof fn lemma_total_prefix(s: Seq<u64>, k: int)
    requires
        0 <= k <= s.len(),
    ensures
        total(s.take(k)) <= total(s),
    decreases s.len() - k,
{
    if k < s.len() {
        lemma_total_prefix(s, k + 1);
        assert(s.take(k + 1).drop_last() =~= s.take(k));
    } else {
        assert(s.take(k) =~= s);
    }
}

fn sum_of(values: &Vec<u64>) -> (t: u64)
    requires
        total(values@) <= u64::MAX,
    ensures
        t as nat == total(values@),
{
    match checked_total(values) {
        Some(t) => t,
        None => 0,
    }
}

/// What one refresh of the system reports.
pub struct Snapshot {
    pub processes: Vec<ProcessSample>,
    pub users: Vec<UserEntry>,
    /// The current frequency of each CPU, in MHz.
    pub cpu_frequencies: Vec<u64>,
    /// Bytes each network interface received since the last refresh.
    pub net_received: Vec<u64>,
    /// Bytes each network interface sent since the last refresh.
    pub net_transmitted: Vec<u64>,
    /// Seconds since boot.
    pub uptime: u64,
}

/// The counters of a snapshot fit in `u64` once summed, as the refresh
/// needs them to.
pub open spec fn snapshot_fits(s: &Snapshot) -> bool {
    &&& total(s.cpu_frequencies@) <= u64::MAX
    &&& total(s.net_received@) <= u64::MAX
    &&& total(s.net_transmitted@) <= u64::MAX
}

/// Whether the counters of a snapshot fit in `u64` once summed.
pub fn snapshot_fits_exec(s: &Snapshot) -> (b: bool)
    ensures
        b == snapshot_fits(s),
{
    checked_total(&s.cpu_frequencies).is_some() && checked_total(&s.net_received).is_some()
        && checked_total(&s.net_transmitted).is_some()
}

/// The details of the CPU that are read once, at start.
pub struct CpuDetails {
    pub max_frequency: String,
    pub governor: String,
    pub l1_cache: String,
    pub l2_cache: String,
    pub l3_cache: String,
}

/// A key that was pressed.
#[derive(Clone, Copy, Debug, PartialEq, Eq, Structural)]
pub enum Key {
    Char(char),
    Tab,
    Up,
    Down,
    Esc,
    Enter,
    Backspace,
    Other,
}

/// A key with whether Control was held.
#[derive(Clone, Copy, Debug, PartialEq, Eq, Structural)]
pub struct KeyPress {
    pub key: Key,
    pub ctrl: bool,
}

/// What the caller has to do after a key.
#[derive(Clone, Copy, Debug, PartialEq, Eq, Structural)]
pub enum Command {
    /// Nothing beyond redrawing.
    Stay,
    /// Leave the program.
    Quit,
    /// Send the kill signal to the process with this pid.
    Kill(u32),
    /// Write the process table to a file, then report it with
    /// `App::export_snapshot`.
    Export,
}

/// The state of the monitor: the process table and what the screens show.
pub struct App {
    /// The rows, in the order of `sort_by`.
    pub processes: Vec<ProcessInfo>,
    /// The indices of the rows that pass the filter, in order.
    pub filtered_processes: Vec<usize>,
    /// The selected position among the rows that pass the filter.
    pub selected: Option<usize>,
    pub active_tab: usize,
    pub sort_by: SortBy,
    pub show_sort_menu: bool,
    pub show_kill_confirm: bool,
    pub pending_kill_pid: Option<u32>,
    pub pending_kill_name: Option<String>,
    pub search_mode: bool,
    pub search_query: String,
    /// Bytes received by all interfaces since the last refresh.
    pub network_in: u64,
    /// Bytes sent by all interfaces since the last refresh.
    pub network_out: u64,
    pub uptime: u64,
    /// The mean of the CPU frequencies, in MHz.
    pub current_cpu_freq: u64,
    pub max_cpu_freq_static: String,
    pub cpu_governor: String,
    pub l1_cache: String,
    pub l2_cache: String,
    pub l3_cache: String,
    pub alert_cpu: bool,
    pub alert_mem: bool,
    pub no_truecolor: bool,
    pub export_message: Option<String>,
}

/// An `App` as plain values.
#[verifier::ext_equal]
pub struct AppView {
    pub processes: Seq<ProcessView>,
    pub filtered: Seq<usize>,
    pub selected: Option<usize>,
    pub active_tab: usize,
    pub sort_by: SortBy,
    pub show_sort_menu: bool,
    pub show_kill_confirm: bool,
    pub pending_kill_pid: Option<u32>,
    pub pending_kill_name: Option<Seq<char>>,
    pub search_mode: bool,
    pub search_query: Seq<char>,
    pub network_in: u64,
    pub network_out: u64,
    pub uptime: u64,
    pub current_cpu_freq: u64,
    pub max_cpu_freq_static: Seq<char>,
    pub cpu_governor: Seq<char>,
    pub l1_cache: Seq<char>,
    pub l2_cache: Seq<char>,
    pub l3_cache: Seq<char>,
    pub alert_cpu: bool,
    pub alert_mem: bool,
    pub no_truecolor: bool,
    pub export_message: Option<Seq<char>>,
}

/// The text of an optional string.
pub open spec fn opt_text(s: Option<String>) -> Option<Seq<char>> {
    match s {
        Some(t) => Some(t@),
        None => None,
    }
}

impl View for App {
    type V = AppView;

    open spec fn view(&self) -> AppView {
        AppView {
            processes: rows_view(self.processes@),
            filtered: self.filtered_processes@,
            selected: self.selected,
            active_tab: self.active_tab,
            sort_by: self.sort_by,
            show_sort_menu: self.show_sort_menu,
            show_kill_confirm: self.show_kill_confirm,
            pending_kill_pid: self.pending_kill_pid,
            pending_kill_name: opt_text(self.pending_kill_name),
            search_mode: self.search_mode,
            search_query: self.search_query@,
            network_in: self.network_in,
            network_out: self.network_out,
            uptime: self.uptime,
            current_cpu_freq: self.current_cpu_freq,
            max_cpu_freq_static: self.max_cpu_freq_static@,
            cpu_governor: self.cpu_governor@,
            l1_cache: self.l1_cache@,
            l2_cache: self.l2_cache@,
            l3_cache: self.l3_cache@,
            alert_cpu: self.alert_cpu,
            alert_mem: self.alert_mem,
            no_truecolor: self.no_truecolor,
            export_message: opt_text(self.export_message),
        }
    }
}

/// The selection once the filtered list has `len` rows: none when the list
/// is empty, the first row when the selection fell off its end, else kept.
pub open spec fn reselect(selected: Option<usize>, len: nat) -> Option<usize> {
    let at = match selected {
        Some(i) => i,
        None => 0,
    };
    if len == 0 {
        None
    } else if at >= len {
        Some(0)
    } else {
        selected
    }
}

/// The state after the filter is applied anew.
pub open spec fn refiltered(v: AppView) -> AppView {
    let f = matching(v.processes, v.search_query);
    AppView { filtered: f, selected: reselect(v.selected, f.len()), ..v }
}

/// The state holds together: a tab that exists, filter indices into the
/// table in increasing order, and a selection inside the filtered list.
pub open spec fn well_formed(v: AppView) -> bool {
    &&& v.active_tab < TAB_COUNT
    &&& v.processes.len() <= usize::MAX
    &&& valid_indices(v.filtered, v.processes.len() as int)
    &&& match v.selected {
        Some(i) => i < v.filtered.len(),
        None => true,
    }
}

/// The filtered list is the filter of the table by the current query.
pub open spec fn filter_current(v: AppView) -> bool {
    v.filtered == matching(v.processes, v.search_query)
}

/// How a refresh from `snap` leaves a state `old`: a new table, the rows
/// that the samples become, ordered by the current column; the filter
/// applied anew; the counters summed; the rest kept.
pub open spec fn refreshed(old: AppView, new: AppView, snap: &Snapshot) -> bool {
    &&& new.processes.to_multiset() == rows_of(snap.processes@, users_view(snap.users@)).to_multiset()
    &&& sorted_by(new.processes, old.sort_by)
    &&& new == refiltered(
        AppView {
            processes: new.processes,
            uptime: snap.uptime,
            current_cpu_freq: if snap.cpu_frequencies@.len() > 0 {
                (total(snap.cpu_frequencies@) / snap.cpu_frequencies@.len()) as u64
            } else {
                old.current_cpu_freq
            },
            network_in: total(snap.net_received@) as u64,
            network_out: total(snap.net_transmitted@) as u64,
            ..old
        },
    )
}

/// The state before the first refresh.
pub open spec fn initial(config: &Config, details: &CpuDetails) -> AppView {
    AppView {
        processes: Seq::empty(),
        filtered: Seq::empty(),
        selected: Some(0),
        active_tab: 0,
        sort_by: SortBy::Cpu,
        show_sort_menu: false,
        show_kill_confirm: false,
        pending_kill_pid: None,
        pending_kill_name: None,
        search_mode: false,
        search_query: config.initial_filter@,
        network_in: 0,
        network_out: 0,
        uptime: 0,
        current_cpu_freq: 0,
        max_cpu_freq_static: details.max_frequency@,
        cpu_governor: details.governor@,
        l1_cache: details.l1_cache@,
        l2_cache: details.l2_cache@,
        l3_cache: details.l3_cache@,
        alert_cpu: false,
        alert_mem: false,
        no_truecolor: config.no_truecolor,
        export_message: None,
    }
}

/// The next tab, after the last the first.
pub open spec fn next_tab_of(v: AppView) -> AppView {
    AppView { active_tab: ((v.active_tab + 1) % (TAB_COUNT as int)) as usize, ..v }
}

/// The selection moved one row down, staying on the last row.
pub open spec fn moved_down(v: AppView) -> AppView {
    if v.filtered.len() == 0 {
        v
    } else {
        let i = match v.selected {
            Some(i) => if i >= v.filtered.len() - 1 { i } else { (i + 1) as usize },
            None => 0,
        };
        AppView { selected: Some(i), ..v }
    }
}

/// The selection moved one row up, staying on the first row.
pub open spec fn moved_up(v: AppView) -> AppView {
    if v.filtered.len() == 0 {
        v
    } else {
        let i = match v.selected {
            Some(i) => if i == 0 { 0 } else { (i - 1) as usize },
            None => 0,
        };
        AppView { selected: Some(i), ..v }
    }
}

/// The selected row, when the selection points at one.
pub open spec fn selected_row(v: AppView) -> Option<ProcessView> {
    match v.selected {
        Some(i) => if i < v.filtered.len() && v.filtered[i as int] < v.processes.len() {
            Some(v.processes[v.filtered[i as int] as int])
        } else {
            None
        },
        None => None,
    }
}

/// The selected row, if any, becomes the one to kill and the question is asked.
pub open spec fn kill_asked(v: AppView) -> AppView {
    match selected_row(v) {
        Some(p) => AppView {
            pending_kill_pid: Some(p.pid),
            pending_kill_name: Some(p.name),
            show_kill_confirm: true,
            ..v
        },
        None => v,
    }
}

/// The question closed and the pending kill forgotten.
pub open spec fn kill_closed(v: AppView) -> AppView {
    AppView { show_kill_confirm: false, pending_kill_pid: None, pending_kill_name: None, ..v }
}

/// The query with `c` added, filtered anew.
pub open spec fn typed(v: AppView, c: char) -> AppView {
    refiltered(AppView { search_query: v.search_query.push(c), ..v })
}

/// The query without its last character, filtered anew.
pub open spec fn erased(v: AppView) -> AppView {
    let q = if v.search_query.len() > 0 { v.search_query.drop_last() } else { v.search_query };
    refiltered(AppView { search_query: q, ..v })
}

/// The query emptied, the search closed, filtered anew.
pub open spec fn search_cleared(v: AppView) -> AppView {
    refiltered(AppView { search_query: Seq::empty(), search_mode: false, ..v })
}

/// The order chosen from the sort menu, which closes.
pub open spec fn sorted_by_choice(v: AppView, by: SortBy) -> AppView {
    AppView { sort_by: by, show_sort_menu: false, ..v }
}

/// The state after `k` is pressed.
pub open spec fn after_key(v: AppView, k: KeyPress) -> AppView {
    if v.show_kill_confirm {
        match k.key {
            Key::Char('y') | Key::Char('Y') => kill_closed(v),
            Key::Char('n') | Key::Char('N') | Key::Esc => kill_closed(v),
            _ => v,
        }
    } else if v.show_sort_menu {
        match k.key {
            Key::Char('1') => sorted_by_choice(v, SortBy::Cpu),
            Key::Char('2') => sorted_by_choice(v, SortBy::Memory),
            Key::Char('3') => sorted_by_choice(v, SortBy::DiskRead),
            Key::Char('4') => sorted_by_choice(v, SortBy::DiskWrite),
            Key::Esc | Key::Char('q') | Key::Char('s') => AppView { show_sort_menu: false, ..v },
            _ => v,
        }
    } else if v.search_mode {
        match k.key {
            Key::Esc | Key::Enter => AppView { search_mode: false, ..v },
            Key::Backspace => erased(v),
            Key::Down => moved_down(v),
            Key::Up => moved_up(v),
            Key::Char(c) => if c == 'c' && k.ctrl { search_cleared(v) } else { typed(v, c) },
            _ => v,
        }
    } else {
        match k.key {
            Key::Tab => next_tab_of(v),
            Key::Char('1') => AppView { active_tab: 0, ..v },
            Key::Char('2') => AppView { active_tab: 1, ..v },
            Key::Char('3') => AppView { active_tab: 2, ..v },
            Key::Char('4') => AppView { active_tab: 3, ..v },
            Key::Char('5') => AppView { active_tab: 4, ..v },
            Key::Down | Key::Char('j') => moved_down(v),
            Key::Up | Key::Char('k') => moved_up(v),
            Key::Char('x') => kill_asked(v),
            Key::Char('s') => if v.active_tab == 0 { AppView { show_sort_menu: true, ..v } } else { v },
            Key::Char('/') => if v.active_tab == 0 { AppView { search_mode: true, ..v } } else { v },
            Key::Char('c') => if k.ctrl && v.active_tab == 0 && v.search_query.len() > 0 {
                search_cleared(v)
            } else {
                v
            },
            _ => v,
        }
    }
}

/// What the caller has to do after `k` is pressed.
pub open spec fn command_for(v: AppView, k: KeyPress) -> Command {
    if v.show_kill_confirm {
        match k.key {
            Key::Char('y') | Key::Char('Y') => match v.pending_kill_pid {
                Some(pid) => Command::Kill(pid),
                None => Command::Stay,
            },
            _ => Command::Stay,
        }
    } else if v.show_sort_menu || v.search_mode {
        Command::Stay
    } else {
        match k.key {
            Key::Char('q') => Command::Quit,
            Key::Char('e') => Command::Export,
            _ => Command::Stay,
        }
    }
}

impl App {
    /// The state before the first refresh, then the first refresh.
    pub fn new(config: &Config, details: CpuDetails, first: Snapshot) -> (app: App)
        requires
            snapshot_fits(&first),
        ensures
            refreshed(initial(config, &details), app@, &first),
            well_formed(app@),
            forall|i: int, j: int|
                0 <= i < j < app@.processes.len() ==> app@.processes[i].cpu_key >= app@.processes[j].cpu_key,
            filter_current(app@),
    {
        let mut app = App {
            processes: Vec::new(),
            filtered_processes: Vec::new(),
            selected: Some(0),
            active_tab: 0,
            sort_by: SortBy::Cpu,
            show_sort_menu: false,
            show_kill_confirm: false,
            pending_kill_pid: None,
            pending_kill_name: None,
            search_mode: false,
            search_query: copy_text(config.initial_filter.as_str()),
            network_in: 0,
            network_out: 0,
            uptime: 0,
            current_cpu_freq: 0,
            max_cpu_freq_static: details.max_frequency,
            cpu_governor: details.governor,
            l1_cache: details.l1_cache,
            l2_cache: details.l2_cache,
            l3_cache: details.l3_cache,
            alert_cpu: false,
            alert_mem: false,
            no_truecolor: config.no_truecolor,
            export_message: None,
        };
        assert(app@ =~= initial(config, &details));
        app.update(first);
        proof {
            crate::laws::lemma_sorted_columns(app@.processes, SortBy::Cpu);
        }
        app
    }

    /// Applies the filter anew and keeps the selection inside the result.
    pub fn update_filter(&mut self)
        ensures
            final(self)@ == refiltered(old(self)@),
            well_formed(final(self)@) == (old(self).active_tab < TAB_COUNT),
            filter_current(final(self)@),
    {
        self.filtered_processes = matching_indices(&self.processes, self.search_query.as_str());
        let n = self.processes.len();
        proof {
            assert(self@.processes.len() == n);
            lemma_matching_is_valid(self@.processes, self@.search_query);
        }
        let at = match self.selected {
            Some(i) => i,
            None => 0,
        };
        if self.filtered_processes.len() == 0 {
            self.selected = None;
        } else if at >= self.filtered_processes.len() {
            self.selected = Some(0);
        }
    }

    /// Takes in a refresh: the new table in the current order, the filter
    /// applied anew, and the counters.
    pub fn update(&mut self, snap: Snapshot)
        requires
            snapshot_fits(&snap),
        ensures
            refreshed(old(self)@, final(self)@, &snap),
            well_formed(final(self)@) == (old(self).active_tab < TAB_COUNT),
            old(self).sort_by == SortBy::Cpu ==> forall|i: int, j: int|
                0 <= i < j < final(self)@.processes.len() ==> final(self)@.processes[i].cpu_key
                    >= final(self)@.processes[j].cpu_key,
            old(self).sort_by == SortBy::Memory ==> forall|i: int, j: int|
                0 <= i < j < final(self)@.processes.len() ==> final(self)@.processes[i].mem
                    >= final(self)@.processes[j].mem,
            old(self).sort_by == SortBy::DiskRead ==> forall|i: int, j: int|
                0 <= i < j < final(self)@.processes.len() ==> final(self)@.processes[i].disk_read
                    >= final(self)@.processes[j].disk_read,
            old(self).sort_by == SortBy::DiskWrite ==> forall|i: int, j: int|
                0 <= i < j < final(self)@.processes.len() ==> final(self)@.processes[i].disk_write
                    >= final(self)@.processes[j].disk_write,
            filter_current(final(self)@),
    {
        let rows = name_owners(&snap.processes, &snap.users);
        self.processes = sort_rows(rows, self.sort_by);
        self.uptime = snap.uptime;
        let n = snap.cpu_frequencies.len();
        if n > 0 {
            let sum = sum_of(&snap.cpu_frequencies);
            self.current_cpu_freq = sum / (n as u64);
        }
        self.network_in = sum_of(&snap.net_received);
        self.network_out = sum_of(&snap.net_transmitted);
        self.update_filter();
        proof {
            crate::laws::lemma_sorted_columns(self@.processes, old(self).sort_by);
        }
    }

    /// Moves to the next tab, after the last to the first.
    pub fn next_tab(&mut self)
        ensures
            final(self)@ == next_tab_of(old(self)@),
    {
        let t = self.active_tab;
        assert((t % 5 + 1) % 5 == (t + 1) % 5) by (nonlinear_arith);
        self.active_tab = (t % TAB_COUNT + 1) % TAB_COUNT;
    }

    /// Moves the selection one row down; on the last row it stays.
    pub fn next_process(&mut self)
        ensures
            final(self)@ == moved_down(old(self)@),
    {
        let n = self.filtered_processes.len();
        if n == 0 {
            return;
        }
        let i = match self.selected {
            Some(i) => if i >= n - 1 { i } else { i + 1 },
            None => 0,
        };
        self.selected = Some(i);
    }

    /// Moves the selection one row up; on the first row it stays.
    pub fn previous_process(&mut self)
        ensures
            final(self)@ == moved_up(old(self)@),
    {
        if self.filtered_processes.len() == 0 {
            return;
        }
        let i = match self.selected {
            Some(i) => if i == 0 { 0 } else { i - 1 },
            None => 0,
        };
        self.selected = Some(i);
    }

    /// Asks whether to kill the selected process, if a row is selected.
    pub fn kill_selected(&mut self)
        ensures
            final(self)@ == kill_asked(old(self)@),
    {
        if let Some(i) = self.selected {
            if i < self.filtered_processes.len() {
                let idx = self.filtered_processes[i];
                if idx < self.processes.len() {
                    let pid = self.processes[idx].pid;
                    let name = self.processes[idx].name.clone();
                    self.pending_kill_pid = Some(pid);
                    self.pending_kill_name = Some(name);
                    self.show_kill_confirm = true;
                }
            }
        }
    }

    /// Closes the question with a yes: gives the pid to kill, if one was
    /// pending, and forgets it.
    pub fn confirm_kill(&mut self) -> (pid: Option<u32>)
        ensures
            pid == old(self)@.pending_kill_pid,
            final(self)@ == kill_closed(old(self)@),
    {
        let pid = self.pending_kill_pid;
        self.show_kill_confirm = false;
        self.pending_kill_pid = None;
        self.pending_kill_name = None;
        pid
    }

    /// Closes the question with a no.
    pub fn cancel_kill(&mut self)
        ensures
            final(self)@ == kill_closed(old(self)@),
    {
        self.show_kill_confirm = false;
        self.pending_kill_pid = None;
        self.pending_kill_name = None;
    }

    /// Adds a character to the query and filters anew.
    pub fn search_push(&mut self, c: char)
        ensures
            final(self)@ == typed(old(self)@, c),
    {
        push_char(&mut self.search_query, c);
        self.update_filter();
    }

    /// Removes the last character of the query and filters anew.
    pub fn search_pop(&mut self)
        ensures
            final(self)@ == erased(old(self)@),
    {
        let _ = pop_char(&mut self.search_query);
        self.update_filter();
    }

    /// Empties the query, closes the search and filters anew.
    pub fn search_clear(&mut self)
        ensures
            final(self)@ == search_cleared(old(self)@),
    {
        clear_string(&mut self.search_query);
        self.search_mode = false;
        self.update_filter();
    }

    /// Takes in the outcome of writing the process table to `path`: once
    /// written, the footer says where.
    pub fn export_snapshot(&mut self, path: &str, written: bool)
        ensures
            written ==> final(self)@ == (AppView {
                export_message: Some("Exported to "@ + path@),
                ..old(self)@
            }),
            !written ==> final(self)@ == old(self)@,
    {
        if written {
            let mut msg = copy_text("Exported to ");
            msg.append(path);
            self.export_message = Some(msg);
        }
    }

    /// Forgets the export message once it has been shown for three
    /// seconds or more; says whether it did.
    pub fn expire_export_message(&mut self, shown_secs: u64) -> (cleared: bool)
        ensures
            cleared == (shown_secs >= 3),
            cleared ==> final(self)@ == (AppView { export_message: None, ..old(self)@ }),
            !cleared ==> final(self)@ == old(self)@,
    {
        if shown_secs >= 3 {
            self.export_message = None;
            true
        } else {
            false
        }
    }

    /// Takes in a key: changes the state as the open popup, the search or
    /// the main view says, and tells the caller what else to do.
    pub fn handle_key(&mut self, k: KeyPress) -> (cmd: Command)
        ensures
            final(self)@ == after_key(old(self)@, k),
            cmd == command_for(old(self)@, k),
            !old(self).show_kill_confirm && !old(self).show_sort_menu && !old(self).search_mode && (k.key
                matches Key::Char(d) && '1' <= d && d <= '5') ==> final(self)@ == (AppView {
                active_tab: ((k.key->Char_0 as u32) - 49) as usize,
                ..old(self)@
            }) && cmd == Command::Stay,
    {
        proof {
            if !old(self).show_kill_confirm && !old(self).show_sort_menu && !old(self).search_mode {
                if let Key::Char(d) = k.key {
                    if '1' <= d && d <= '5' {
                        crate::laws::lemma_digit_jumps_to_tab(old(self)@, d, k.ctrl);
                    }
                }
            }
        }
        if self.show_kill_confirm {
            match k.key {
                Key::Char('y') | Key::Char('Y') => {
                    match self.confirm_kill() {
                        Some(pid) => Command::Kill(pid),
                        None => Command::Stay,
                    }
                },
                Key::Char('n') | Key::Char('N') | Key::Esc => {
                    self.cancel_kill();
                    Command::Stay
                },
                _ => Command::Stay,
            }
        } else if self.show_sort_menu {
            match k.key {
                Key::Char('1') => {
                    self.sort_by = SortBy::Cpu;
                    self.show_sort_menu = false;
                },
                Key::Char('2') => {
                    self.sort_by = SortBy::Memory;
                    self.show_sort_menu = false;
                },
                Key::Char('3') => {
                    self.sort_by = SortBy::DiskRead;
                    self.show_sort_menu = false;
                },
                Key::Char('4') => {
                    self.sort_by = SortBy::DiskWrite;
                    self.show_sort_menu = false;
                },
                Key::Esc | Key::Char('q') | Key::Char('s') => {
                    self.show_sort_menu = false;
                },
                _ => {},
            }
            Command::Stay
        } else if self.search_mode {
            match k.key {
                Key::Esc | Key::Enter => {
                    self.search_mode = false;
                },
                Key::Backspace => {
                    self.search_pop();
                },
                Key::Down => {
                    self.next_process();
                },
                Key::Up => {
                    self.previous_process();
                },
                Key::Char(c) => {
                    if c == 'c' && k.ctrl {
                        self.search_clear();
                    } else {
                        self.search_push(c);
                    }
                },
                _ => {},
            }
            Command::Stay
        } else {
            match k.key {
                Key::Char('q') => Command::Quit,
                Key::Tab => {
                    self.next_tab();
                    Command::Stay
                },
                Key::Char('1') => {
                    self.active_tab = 0;
                    Command::Stay
                },
                Key::Char('2') => {
                    self.active_tab = 1;
                    Command::Stay
                },
                Key::Char('3') => {
                    self.active_tab = 2;
                    Command::Stay
                },
                Key::Char('4') => {
                    self.active_tab = 3;
                    Command::Stay
                },
                Key::Char('5') => {
                    self.active_tab = 4;
                    Command::Stay
                },
                Key::Down | Key::Char('j') => {
                    self.next_process();
                    Command::Stay
                },
                Key::Up | Key::Char('k') => {
                    self.previous_process();
                    Command::Stay
                },
                Key::Char('x') => {
                    self.kill_selected();
                    Command::Stay
                },
                Key::Char('s') => {
                    if self.active_tab == 0 {
                        self.show_sort_menu = true;
                    }
                    Command::Stay
                },
                Key::Char('/') => {
                    if self.active_tab == 0 {
                        self.search_mode = true;
                    }
                    Command::Stay
                },
                Key::Char('e') => Command::Export,
                Key::Char('c') => {
                    if k.ctrl && self.active_tab == 0 && self.search_query.as_str().unicode_len() > 0 {
                        self.search_clear();
                    }
                    Command::Stay
                },
                _ => Command::Stay,
            }
        }
    }
}

} // verus!

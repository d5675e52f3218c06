//! Properties of the monitor that span several operations or all inputs.

use vstd::prelude::*;
use crate::app::{
    after_key, command_for, erased, filter_current, moved_down, moved_up, next_tab_of, refiltered,
    selected_row, typed, well_formed, AppView, Command, Key, KeyPress, TAB_COUNT,
};
use crate::cli::{default_config, options_from, ConfigView, MIN_INTERVAL_MS};
use crate::app::{refreshed, total, Snapshot};
use crate::process::{rows_of, sort_key, sorted_by, users_view, SortBy};
use crate::system::{ipv4_of, ipv6_of};
use crate::text::parse_unsigned;
use crate::history::{recorded, HISTORY_LEN};
use crate::process::{
    all_indices, lemma_matching_is_valid, lemma_matching_valid, matching, matching_upto, row_matches,
    ProcessView,
};
use crate::text::{ascii_lower, ascii_text, is_ascii_char, lowered, occurs_in};

verus! {

/// Filtering anew keeps the state well formed.
pub proof fn lemma_refilter_keeps_well_formed(v: AppView)
    requires
        well_formed(v),
    ensures
        well_formed(refiltered(v)),
{
    lemma_matching_is_valid(v.processes, v.search_query);
}

/// Every key keeps the state well formed: the tab exists, the filter
/// indexes the table in order, the selection stays inside the filtered list.
pub proof fn lemma_key_keeps_well_formed(v: AppView, k: KeyPress)
    requires
        well_formed(v),
    ensures
        well_formed(after_key(v, k)),
{
    lemma_refilter_keeps_well_formed(AppView { search_query: v.search_query, ..v });
    match k.key {
        Key::Char(c) => {
            lemma_refilter_keeps_well_formed(AppView { search_query: v.search_query.push(c), ..v });
            lemma_refilter_keeps_well_formed(AppView { search_query: Seq::empty(), search_mode: false, ..v });
        },
        Key::Backspace => {
            let q = if v.search_query.len() > 0 { v.search_query.drop_last() } else { v.search_query };
            lemma_refilter_keeps_well_formed(AppView { search_query: q, ..v });
        },
        _ => {},
    }
}

/// Every key keeps the filtered list equal to the filter of the table by
/// the query.
pub proof fn lemma_key_keeps_filter_current(v: AppView, k: KeyPress)
    ensures
        filter_current(v) ==> filter_current(after_key(v, k)),
{
}

/// Five presses of Tab come back to the same view.
pub proof fn lemma_tabs_cycle(v: AppView)
    requires
        v.active_tab < TAB_COUNT,
    ensures
        next_tab_of(next_tab_of(next_tab_of(next_tab_of(next_tab_of(v))))) == v,
{
}

/// Typing a character and erasing it gives back the query, and the filter
/// is then that of the unchanged table by that query.
pub proof fn lemma_type_then_erase(v: AppView, c: char)
    ensures
        erased(typed(v, c)).search_query == v.search_query,
        erased(typed(v, c)).processes == v.processes,
        erased(typed(v, c)).filtered == matching(v.processes, v.search_query),
{
    assert(v.search_query.push(c).drop_last() =~= v.search_query);
}

/// Moving down then up returns to the same row, unless the row was the last.
pub proof fn lemma_down_then_up(v: AppView, i: usize)
    requires
        v.selected == Some(i),
        i + 1 < v.filtered.len(),
        v.filtered.len() <= usize::MAX,
    ensures
        moved_up(moved_down(v)) == v,
{
    assert(moved_up(moved_down(v)) =~= v);
}

/// The selection never leaves the filtered list by moving.
pub proof fn lemma_moves_stay_inside(v: AppView)
    requires
        well_formed(v),
    ensures
        well_formed(moved_down(v)),
        well_formed(moved_up(v)),
{
}

/// A kill is only asked of the caller while the question is open and a
/// process is pending, and it is that process.
pub proof fn lemma_kill_needs_confirmation(v: AppView, k: KeyPress, pid: u32)
    ensures
        command_for(v, k) == Command::Kill(pid) ==> v.show_kill_confirm && v.pending_kill_pid == Some(pid)
            && (k.key == Key::Char('y') || k.key == Key::Char('Y')),
{
}

/// In the main view, `x` then `y` kills the selected process and closes
/// the question.
pub proof fn lemma_kill_targets_selected(v: AppView, p: ProcessView, ctrl: bool)
    requires
        !v.show_kill_confirm,
        !v.show_sort_menu,
        !v.search_mode,
        selected_row(v) == Some(p),
    ensures
        command_for(after_key(v, KeyPress { key: Key::Char('x'), ctrl }), KeyPress { key: Key::Char('y'), ctrl })
            == Command::Kill(p.pid),
        !after_key(after_key(v, KeyPress { key: Key::Char('x'), ctrl }), KeyPress { key: Key::Char('y'), ctrl }).show_kill_confirm,
        after_key(after_key(v, KeyPress { key: Key::Char('x'), ctrl }), KeyPress { key: Key::Char('y'), ctrl }).pending_kill_pid is None,
{
}

/// The program is only left from the main view, with `q`.
pub proof fn lemma_quit_only_from_main_view(v: AppView, k: KeyPress)
    ensures
        command_for(v, k) == Command::Quit ==> !v.show_kill_confirm && !v.show_sort_menu && !v.search_mode
            && k.key == Key::Char('q'),
{
}

/// Keys that only close a popup keep the query and the filtered list.
pub proof fn lemma_closing_search_keeps_filter(v: AppView, k: KeyPress)
    requires
        !v.show_kill_confirm,
        !v.show_sort_menu,
        v.search_mode,
        k.key == Key::Esc || k.key == Key::Enter,
    ensures
        !after_key(v, k).search_mode,
        after_key(v, k).search_query == v.search_query,
        after_key(v, k).filtered == v.filtered,
{
}

/// A row passes the filter exactly when the lowered query is empty, or
/// its lowered name or its pid's numeral contains the lowered query.
pub proof fn lemma_matching_members(rows: Seq<ProcessView>, query: Seq<char>, i: int)
    requires
        0 <= i < rows.len(),
        rows.len() <= usize::MAX,
    ensures
        matching(rows, query).contains(i as usize) <==> (lowered(query).len() == 0 || row_matches(
            rows[i],
            lowered(query),
        )),
{
    if lowered(query).len() == 0 {
        assert(all_indices(rows.len())[i] == i as usize);
    } else {
        lemma_upto_members(rows, lowered(query), rows.len() as int, i);
    }
}

proof fn lemma_upto_members(rows: Seq<ProcessView>, lq: Seq<char>, n: int, i: int)
    requires
        0 <= i < n <= rows.len(),
        rows.len() <= usize::MAX,
    ensures
        matching_upto(rows, lq, n).contains(i as usize) <==> row_matches(rows[i], lq),
    decreases n,
{
    let prev = matching_upto(rows, lq, n - 1);
    lemma_matching_valid(rows, lq, n - 1);
    if i == n - 1 {
        if !row_matches(rows[n - 1], lq) {
            if prev.contains(i as usize) {
                let k = choose|k: int| 0 <= k < prev.len() && prev[k] == i as usize;
                assert(prev[k] < n - 1);
            }
        } else {
            assert(matching_upto(rows, lq, n)[prev.len() as int] == (n - 1) as usize);
        }
    } else {
        lemma_upto_members(rows, lq, n - 1, i);
        if row_matches(rows[n - 1], lq) {
            let cur = matching_upto(rows, lq, n);
            assert(cur == prev.push((n - 1) as usize));
            if prev.contains(i as usize) {
                let k = choose|k: int| 0 <= k < prev.len() && prev[k] == i as usize;
                assert(cur[k] == i as usize);
            }
            if cur.contains(i as usize) {
                let k = choose|k: int| 0 <= k < cur.len() && cur[k] == i as usize;
                assert(k < prev.len());
                assert(prev[k] == i as usize);
            }
        }
    }
}

/// With an empty query every row passes the filter, in order.
pub proof fn lemma_empty_query_shows_all(rows: Seq<ProcessView>, query: Seq<char>)
    requires
        query.len() == 0,
    ensures
        matching(rows, query) == all_indices(rows.len()),
{
    assert(ascii_text(query));
    assert(lowered(query).len() == 0);
}

/// Clearing the search shows every row of the table.
pub proof fn lemma_clear_shows_all(v: AppView)
    ensures
        crate::app::search_cleared(v).filtered == all_indices(v.processes.len()),
{
    lemma_empty_query_shows_all(v.processes, Seq::empty());
}

/// Lowering an ASCII query with one more ASCII character adds the
/// lowered character at the end.
pub proof fn lemma_lowered_push(q: Seq<char>, c: char)
    requires
        ascii_text(q),
        is_ascii_char(c),
    ensures
        lowered(q.push(c)) == lowered(q).push(ascii_lower(c)),
{
    assert(ascii_text(q.push(c))) by {
        assert forall|i: int| 0 <= i < q.push(c).len() implies is_ascii_char(#[trigger] q.push(c)[i]) by {
            if i < q.len() {
                assert(q.push(c)[i] == q[i]);
            }
        }
    }
    assert(lowered(q.push(c)) =~= lowered(q).push(ascii_lower(c)));
}

/// A text that contains a needle with one more character at its end
/// contains the needle.
pub proof fn lemma_occurs_shorter<T>(needle: Seq<T>, x: T, hay: Seq<T>)
    requires
        occurs_in(needle.push(x), hay),
    ensures
        occurs_in(needle, hay),
{
    let i = choose|i: int|
        0 <= i <= hay.len() - needle.push(x).len() && #[trigger] hay.subrange(i, i + needle.push(x).len())
            == needle.push(x);
    assert(hay.subrange(i, i + needle.len()) =~= needle) by {
        assert forall|k: int| 0 <= k < needle.len() implies hay.subrange(i, i + needle.len())[k] == needle[k] by {
            assert(hay.subrange(i, i + needle.push(x).len())[k] == needle.push(x)[k]);
        }
    }
}

/// Typing one more ASCII character into an ASCII query never lets a row
/// in that the shorter query kept out.
pub proof fn lemma_longer_query_narrows(rows: Seq<ProcessView>, q: Seq<char>, c: char, i: int)
    requires
        ascii_text(q),
        is_ascii_char(c),
        0 <= i < rows.len(),
        rows.len() <= usize::MAX,
        matching(rows, q.push(c)).contains(i as usize),
    ensures
        matching(rows, q).contains(i as usize),
{
    lemma_lowered_push(q, c);
    lemma_matching_members(rows, q.push(c), i);
    lemma_matching_members(rows, q, i);
    if lowered(q).len() != 0 {
        let lq = lowered(q);
        if occurs_in(lq.push(ascii_lower(c)), lowered(rows[i].name)) {
            lemma_occurs_shorter(lq, ascii_lower(c), lowered(rows[i].name));
        } else {
            lemma_occurs_shorter(lq, ascii_lower(c), crate::text::decimal(rows[i].pid as nat));
        }
    }
}

/// With the filter current, typing an ASCII character into an ASCII query
/// keeps only rows that were already shown.
pub proof fn lemma_typing_narrows(v: AppView, c: char, k: int)
    requires
        ascii_text(v.search_query),
        is_ascii_char(c),
        v.processes.len() <= usize::MAX,
        0 <= k < typed(v, c).filtered.len(),
    ensures
        filter_current(v) ==> v.filtered.contains(typed(v, c).filtered[k]),
{
    let f = typed(v, c).filtered;
    lemma_matching_is_valid(v.processes, v.search_query.push(c));
    assert(f[k] < v.processes.len());
    assert(f.contains(f[k]));
    lemma_longer_query_narrows(v.processes, v.search_query, c, f[k] as int);
}

/// A history that keeps at most `HISTORY_LEN` readings still does after
/// one more, which is its last; the readings before are the newest ones
/// it had, in order.
pub proof fn lemma_history_bounded<T>(h: Seq<T>, x: T)
    requires
        h.len() <= HISTORY_LEN,
    ensures
        recorded(h, x).len() <= HISTORY_LEN,
        recorded(h, x).last() == x,
        recorded(h, x).drop_last() == h.subrange(h.len() - (recorded(h, x).len() - 1), h.len() as int),
{
    if h.len() + 1 > HISTORY_LEN {
        assert(h.push(x).drop_first().drop_last() =~= h.subrange(1, h.len() as int));
    } else {
        assert(h.push(x).drop_last() =~= h.subrange(0, h.len() as int));
    }
}

/// Whatever the command line says, the refresh interval is at least the minimum.
pub proof fn lemma_interval_floor(args: Seq<Seq<char>>)
    ensures
        options_from(args, 1, default_config()) matches Some(c) ==> c.tick_rate_ms >= MIN_INTERVAL_MS,
{
    lemma_interval_floor_from(args, 1, default_config());
}

proof fn lemma_interval_floor_from(args: Seq<Seq<char>>, i: int, cfg: ConfigView)
    requires
        cfg.tick_rate_ms >= MIN_INTERVAL_MS,
    ensures
        options_from(args, i, cfg) matches Some(c) ==> c.tick_rate_ms >= MIN_INTERVAL_MS,
    decreases args.len() - i,
{
    if 0 <= i < args.len() {
        if args[i] == "--interval"@ && i + 1 < args.len() {
            let next = match crate::text::parse_unsigned(args[i + 1], u64::MAX as nat) {
                Some(ms) => ConfigView { tick_rate_ms: crate::cli::clamp_interval(ms), ..cfg },
                None => cfg,
            };
            lemma_interval_floor_from(args, i + 2, next);
            assert(options_from(args, i, cfg) == options_from(args, i + 2, next));
        } else if args[i] == "--filter"@ && i + 1 < args.len() {
            lemma_interval_floor_from(args, i + 2, ConfigView { initial_filter: args[i + 1], ..cfg });
            reveal_strlit("--filter");
            reveal_strlit("--no-mouse");
            assert("--filter"@[2] != "--no-mouse"@[2]);
        } else {
            lemma_interval_floor_from(args, i + 1, cfg);
            lemma_interval_floor_from(args, i + 1, ConfigView { no_mouse: true, ..cfg });
            lemma_interval_floor_from(args, i + 1, ConfigView { no_truecolor: true, ..cfg });
            if args[i] == "--interval"@ {
                assert(options_from(args, i, cfg) == options_from(args, i + 1, cfg));
            } else if args[i] == "--no-mouse"@ {
                assert(options_from(args, i, cfg) == options_from(args, i + 1, ConfigView { no_mouse: true, ..cfg }));
            } else if args[i] == "--filter"@ {
                assert(options_from(args, i, cfg) == options_from(args, i + 1, cfg));
            } else if args[i] == "--no-truecolor"@ {
                assert(options_from(args, i, cfg) == options_from(args, i + 1, ConfigView { no_truecolor: true, ..cfg }));
            }
        }
    }
}


/// Rows in the order of a column, largest first, are in non-increasing
/// order of that column's own field.
pub proof fn lemma_sorted_columns(rows: Seq<ProcessView>, by: SortBy)
    requires
        sorted_by(rows, by),
    ensures
        by == SortBy::Cpu ==> forall|i: int, j: int| 0 <= i < j < rows.len() ==> rows[i].cpu_key >= rows[j].cpu_key,
        by == SortBy::Memory ==> forall|i: int, j: int| 0 <= i < j < rows.len() ==> rows[i].mem >= rows[j].mem,
        by == SortBy::DiskRead ==> forall|i: int, j: int|
            0 <= i < j < rows.len() ==> rows[i].disk_read >= rows[j].disk_read,
        by == SortBy::DiskWrite ==> forall|i: int, j: int|
            0 <= i < j < rows.len() ==> rows[i].disk_write >= rows[j].disk_write,
{
    assert forall|i: int, j: int| 0 <= i < j < rows.len() implies sort_key(rows[i], by) >= sort_key(rows[j], by) by {}
}

/// After a refresh, the rows are in non-increasing order of the field of
/// the column that was chosen before the refresh, and they are the
/// sampled rows with their owners named, each as often as sampled.
pub proof fn lemma_refresh_orders_by_column(old: AppView, new: AppView, snap: &Snapshot)
    requires
        refreshed(old, new, snap),
    ensures
        old.sort_by == SortBy::Cpu ==> forall|i: int, j: int|
            0 <= i < j < new.processes.len() ==> new.processes[i].cpu_key >= new.processes[j].cpu_key,
        old.sort_by == SortBy::Memory ==> forall|i: int, j: int|
            0 <= i < j < new.processes.len() ==> new.processes[i].mem >= new.processes[j].mem,
        old.sort_by == SortBy::DiskRead ==> forall|i: int, j: int|
            0 <= i < j < new.processes.len() ==> new.processes[i].disk_read >= new.processes[j].disk_read,
        old.sort_by == SortBy::DiskWrite ==> forall|i: int, j: int|
            0 <= i < j < new.processes.len() ==> new.processes[i].disk_write >= new.processes[j].disk_write,
        new.processes.to_multiset() == rows_of(snap.processes@, users_view(snap.users@)).to_multiset(),
{
    lemma_sorted_columns(new.processes, old.sort_by);
}

/// In the main view, pressing a digit from 1 to 5 jumps to tab digit - 1
/// and changes nothing else.
pub proof fn lemma_digit_jumps_to_tab(v: AppView, d: char, ctrl: bool)
    requires
        !v.show_kill_confirm,
        !v.show_sort_menu,
        !v.search_mode,
        '1' <= d <= '5',
    ensures
        after_key(v, KeyPress { key: Key::Char(d), ctrl }) == (AppView { active_tab: ((d as u32) - 49) as usize, ..v }),
        command_for(v, KeyPress { key: Key::Char(d), ctrl }) == Command::Stay,
{
    let u = d as u32;
    assert(49 <= u <= 53);
    if u == 49 {
        assert(d == '1');
    } else if u == 50 {
        assert(d == '2');
    } else if u == 51 {
        assert(d == '3');
    } else if u == 52 {
        assert(d == '4');
    } else {
        assert(d == '5');
    }
}

/// `--interval` followed by a number sets the interval to that number,
/// or to the minimum when the number is below it, and goes on after the
/// number.
pub proof fn lemma_interval_sets_value(args: Seq<Seq<char>>, i: int, cfg: ConfigView, ms: nat)
    requires
        0 <= i,
        i + 1 < args.len(),
        args[i] == "--interval"@,
        parse_unsigned(args[i + 1], u64::MAX as nat) == Some(ms),
    ensures
        options_from(args, i, cfg) == options_from(
            args,
            i + 2,
            ConfigView { tick_rate_ms: if ms < 50 { 50 } else { ms }, ..cfg },
        ),
{
}

/// A command line of only `--interval ms`, with `ms` at least the minimum,
/// sets the interval to exactly `ms` and keeps every other default.
pub proof fn lemma_interval_kept(program: Seq<char>, text: Seq<char>, ms: nat)
    requires
        parse_unsigned(text, u64::MAX as nat) == Some(ms),
        ms >= 50,
    ensures
        options_from(seq![program, "--interval"@, text], 1, default_config()) == Some(
            ConfigView { tick_rate_ms: ms, ..default_config() },
        ),
{
    let args = seq![program, "--interval"@, text];
    lemma_interval_sets_value(args, 1, default_config(), ms);
}

/// Every address with a `.` is in the IPv4 list and every address with a
/// `:` and no `.` in the IPv6 list; the lists hold nothing else.
pub proof fn lemma_address_columns(addrs: Seq<Seq<char>>)
    ensures
        forall|k: int| 0 <= k < addrs.len() && occurs_in("."@, addrs[k]) ==> ipv4_of(addrs).contains(#[trigger] addrs[k]),
        forall|k: int|
            0 <= k < addrs.len() && !occurs_in("."@, addrs[k]) && occurs_in(":"@, addrs[k]) ==> ipv6_of(
                addrs,
            ).contains(#[trigger] addrs[k]),
        forall|k: int| 0 <= k < ipv4_of(addrs).len() ==> occurs_in("."@, #[trigger] ipv4_of(addrs)[k]),
        forall|k: int|
            0 <= k < ipv6_of(addrs).len() ==> !occurs_in("."@, #[trigger] ipv6_of(addrs)[k]) && occurs_in(
                ":"@,
                ipv6_of(addrs)[k],
            ),
        forall|a: Seq<char>| #[trigger] ipv4_of(addrs).contains(a) ==> addrs.contains(a),
        forall|a: Seq<char>| #[trigger] ipv6_of(addrs).contains(a) ==> addrs.contains(a),
{
    broadcast use vstd::seq_lib::group_filter_ensures;

    assert forall|a: Seq<char>| #[trigger] ipv4_of(addrs).contains(a) implies addrs.contains(a) by {
        addrs.lemma_filter_contains_rev(|x: Seq<char>| occurs_in("."@, x), a);
    }
    assert forall|a: Seq<char>| #[trigger] ipv6_of(addrs).contains(a) implies addrs.contains(a) by {
        addrs.lemma_filter_contains_rev(|x: Seq<char>| !occurs_in("."@, x) && occurs_in(":"@, x), a);
    }
}

} // verus!

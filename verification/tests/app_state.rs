use resource_monitor::app::{App, Command, CpuDetails, Key, KeyPress, Snapshot};
use resource_monitor::cli::Config;
use resource_monitor::process::{ProcessSample, SortBy, UserEntry};

fn sample(pid: u32, name: &str, uid: Option<u32>, cpu: f32, mem: u64) -> ProcessSample {
    ProcessSample {
        pid,
        name: name.to_string(),
        uid,
        cpu_key: cpu.to_bits(),
        mem,
        disk_read: 0,
        disk_write: 0,
    }
}

fn details() -> CpuDetails {
    CpuDetails {
        max_frequency: "3.50 GHz".to_string(),
        governor: "powersave".to_string(),
        l1_cache: "64K".to_string(),
        l2_cache: "512K".to_string(),
        l3_cache: "8192K".to_string(),
    }
}

fn snapshot() -> Snapshot {
    Snapshot {
        processes: vec![
            sample(10, "bash", Some(1000), 1.5, 300),
            sample(20, "Firefox", Some(1000), 42.0, 900),
            sample(300, "systemd", Some(0), 0.5, 100),
        ],
        users: vec![
            UserEntry { uid: 0, name: "root".to_string() },
            UserEntry { uid: 1000, name: "alice".to_string() },
        ],
        cpu_frequencies: vec![1000, 2000, 3000],
        net_received: vec![10, 20],
        net_transmitted: vec![5],
        uptime: 90061,
    }
}

fn key(c: char) -> KeyPress {
    KeyPress { key: Key::Char(c), ctrl: false }
}

#[test]
fn first_refresh_orders_by_cpu() {
    let app = App::new(&Config::default(), details(), snapshot());
    let pids: Vec<u32> = app.processes.iter().map(|p| p.pid).collect();
    assert_eq!(pids, vec![20, 10, 300]);
    assert_eq!(app.filtered_processes, vec![0, 1, 2]);
    assert_eq!(app.selected, Some(0));
    assert_eq!(app.current_cpu_freq, 2000);
    assert_eq!(app.network_in, 30);
    assert_eq!(app.network_out, 5);
    assert_eq!(app.processes[0].user, "alice");
    assert_eq!(app.processes[2].user, "root");
}

#[test]
fn search_filters_by_name_and_pid() {
    let mut app = App::new(&Config::default(), details(), snapshot());
    assert_eq!(app.handle_key(key('/')), Command::Stay);
    assert!(app.search_mode);
    app.handle_key(key('F'));
    assert_eq!(app.filtered_processes, vec![0]);
    app.handle_key(KeyPress { key: Key::Backspace, ctrl: false });
    app.handle_key(key('3'));
    assert_eq!(app.filtered_processes, vec![2]);
    app.handle_key(KeyPress { key: Key::Char('c'), ctrl: true });
    assert!(!app.search_mode);
    assert_eq!(app.search_query, "");
    assert_eq!(app.filtered_processes, vec![0, 1, 2]);
}

#[test]
fn kill_asks_then_names_the_pid() {
    let mut app = App::new(&Config::default(), details(), snapshot());
    app.handle_key(KeyPress { key: Key::Down, ctrl: false });
    app.handle_key(key('x'));
    assert!(app.show_kill_confirm);
    assert_eq!(app.pending_kill_name.as_deref(), Some("bash"));
    assert_eq!(app.handle_key(key('q')), Command::Stay);
    assert_eq!(app.handle_key(key('y')), Command::Kill(10));
    assert!(!app.show_kill_confirm);
    assert_eq!(app.pending_kill_pid, None);
}

#[test]
fn sort_menu_choice_applies_on_refresh() {
    let mut app = App::new(&Config::default(), details(), snapshot());
    app.handle_key(key('s'));
    assert!(app.show_sort_menu);
    app.handle_key(key('2'));
    assert_eq!(app.sort_by, SortBy::Memory);
    assert!(!app.show_sort_menu);
    app.update(snapshot());
    let pids: Vec<u32> = app.processes.iter().map(|p| p.pid).collect();
    assert_eq!(pids, vec![20, 10, 300]);
    app.update(Snapshot {
        processes: vec![sample(1, "a", None, 0.0, 5), sample(2, "b", None, 0.0, 50)],
        ..snapshot()
    });
    let pids: Vec<u32> = app.processes.iter().map(|p| p.pid).collect();
    assert_eq!(pids, vec![2, 1]);
    assert_eq!(app.processes[0].user, "");
}

#[test]
fn tabs_and_quit() {
    let mut app = App::new(&Config::default(), details(), snapshot());
    for expected in [1usize, 2, 3, 4, 0] {
        app.handle_key(KeyPress { key: Key::Tab, ctrl: false });
        assert_eq!(app.active_tab, expected);
    }
    app.handle_key(key('4'));
    assert_eq!(app.active_tab, 3);
    app.handle_key(key('s'));
    assert!(!app.show_sort_menu);
    assert_eq!(app.handle_key(key('e')), Command::Export);
    assert_eq!(app.handle_key(key('q')), Command::Quit);
}

#[test]
fn selection_stays_in_range() {
    let mut app = App::new(&Config::default(), details(), snapshot());
    app.previous_process();
    assert_eq!(app.selected, Some(0));
    for _ in 0..5 {
        app.next_process();
    }
    assert_eq!(app.selected, Some(2));
    app.search_push('z');
    assert_eq!(app.filtered_processes, Vec::<usize>::new());
    assert_eq!(app.selected, None);
    app.search_pop();
    assert_eq!(app.selected, None);
    app.next_process();
    assert_eq!(app.selected, Some(0));
}

#[test]
fn export_message_and_expiry() {
    let mut app = App::new(&Config::default(), details(), snapshot());
    app.export_snapshot("/home/a/resource-monitor-5.csv", false);
    assert_eq!(app.export_message, None);
    app.export_snapshot("/home/a/resource-monitor-5.csv", true);
    assert_eq!(app.export_message.as_deref(), Some("Exported to /home/a/resource-monitor-5.csv"));
    assert!(!app.expire_export_message(2));
    assert!(app.export_message.is_some());
    assert!(app.expire_export_message(3));
    assert_eq!(app.export_message, None);
}

#[test]
fn closing_search_keeps_the_filter() {
    let mut app = App::new(&Config::default(), details(), snapshot());
    app.handle_key(key('/'));
    app.handle_key(key('s'));
    app.handle_key(key('h'));
    assert_eq!(app.filtered_processes, vec![1]);
    app.handle_key(KeyPress { key: Key::Enter, ctrl: false });
    assert!(!app.search_mode);
    assert_eq!(app.search_query, "sh");
    assert_eq!(app.filtered_processes, vec![1]);
    assert_eq!(app.handle_key(KeyPress { key: Key::Char('c'), ctrl: true }), Command::Stay);
    assert_eq!(app.search_query, "");
    assert_eq!(app.filtered_processes, vec![0, 1, 2]);
}

#[test]
fn down_then_up_returns() {
    let mut app = App::new(&Config::default(), details(), snapshot());
    app.handle_key(key('j'));
    assert_eq!(app.selected, Some(1));
    app.handle_key(key('j'));
    app.handle_key(key('k'));
    assert_eq!(app.selected, Some(1));
}

#[test]
fn initial_filter_applies_at_start() {
    let config = Config { initial_filter: "SYS".to_string(), ..Config::default() };
    let app = App::new(&config, details(), snapshot());
    assert_eq!(app.filtered_processes, vec![2]);
    assert_eq!(app.selected, Some(0));
    assert_eq!(app.l3_cache, "8192K");
}

#[test]
fn empty_filter_lists_every_process() {
    let mut app = App::new(&Config::default(), details(), snapshot());
    assert_eq!(app.filtered_processes, vec![0, 1, 2]);
    app.search_push('q');
    assert!(app.filtered_processes.is_empty());
    app.search_clear();
    assert_eq!(app.filtered_processes, vec![0, 1, 2]);
    app.update(snapshot());
    assert_eq!(app.filtered_processes, vec![0, 1, 2]);
}

use resource_monitor::process::SortBy;
use resource_monitor::system::{cache_summary, export_path, find_cpu_sensor, governor_text, split_addresses, CacheEntry};
use resource_monitor::view::{
    alert_border, centered_rect, cpu_grid, help_line, kill_prompt, process_title, process_title_shade, resolve,
    search_popup, uptime_text, Area, Shade, TermColor,
};

fn entry(level: &str, size: &str) -> CacheEntry {
    CacheEntry { level: level.to_string(), size: size.to_string() }
}

#[test]
fn cache_summary_totals_l1_and_keeps_last_l2_l3() {
    let (l1, l2, l3) = cache_summary(&vec![
        entry("1\n", "32K\n"),
        entry("1\n", "32K\n"),
        entry("2\n", "512K\n"),
        entry("3\n", "8192K\n"),
        entry("3\n", "16384K\n"),
    ])
    .unwrap();
    assert_eq!(l1, "64K");
    assert_eq!(l2, "512K");
    assert_eq!(l3, "16384K");
}

#[test]
fn cache_summary_unknowns_and_overflow() {
    let (l1, l2, l3) = cache_summary(&vec![entry("1", "big"), entry("4", "1K")]).unwrap();
    assert_eq!((l1.as_str(), l2.as_str(), l3.as_str()), ("Unknown", "Unknown", "Unknown"));
    assert!(cache_summary(&vec![entry("1", "4294967295K"), entry("1", "1K")]).is_none());
}

#[test]
fn governor() {
    assert_eq!(governor_text(Some("performance\n")), "performance");
    assert_eq!(governor_text(None), "Unknown");
}

#[test]
fn cpu_sensor_is_found_whatever_the_case() {
    let labels: Vec<String> = ["acpitz", "nvme Composite", "Package id 0", "coretemp CPU"].iter().map(|s| s.to_string()).collect();
    assert_eq!(find_cpu_sensor(&labels), Some(2));
    let labels: Vec<String> = ["nvme", "TCTL"].iter().map(|s| s.to_string()).collect();
    assert_eq!(find_cpu_sensor(&labels), Some(1));
    let labels: Vec<String> = ["nvme", "wifi"].iter().map(|s| s.to_string()).collect();
    assert_eq!(find_cpu_sensor(&labels), None);
}

#[test]
fn addresses_split_by_family() {
    let addrs: Vec<String> = ["192.168.1.2", "fe80::1", "10.0.0.1", "::ffff:1.2.3.4"].iter().map(|s| s.to_string()).collect();
    let (v4, v6) = split_addresses(&addrs);
    assert_eq!(v4, "192.168.1.2, 10.0.0.1, ::ffff:1.2.3.4");
    assert_eq!(v6, "fe80::1");
    let (v4, v6) = split_addresses(&Vec::new());
    assert_eq!((v4.as_str(), v6.as_str()), ("None", "None"));
}

#[test]
fn export_file_name() {
    assert_eq!(export_path("/home/ann", 1725029869), "/home/ann/resource-monitor-1725029869.csv");
    assert_eq!(export_path(".", 0), "./resource-monitor-0.csv");
}

#[test]
fn colours_fall_back_without_true_colour() {
    assert_eq!(resolve(Shade::Mauve.color(), false), TermColor::Rgb(198, 160, 246));
    assert_eq!(resolve(Shade::Mauve.color(), true), TermColor::Magenta);
    assert_eq!(resolve(Shade::Orange.color(), true), TermColor::Yellow);
    assert_eq!(resolve(Shade::Teal.color(), true), TermColor::Cyan);
    assert_eq!(resolve(Shade::Surface1.color(), true), TermColor::DarkGray);
    assert_eq!(resolve(TermColor::Rgb(1, 2, 3), true), TermColor::Rgb(1, 2, 3));
    let all = [
        Shade::Mauve, Shade::Peach, Shade::Yellow, Shade::Green, Shade::Sky, Shade::Sapphire, Shade::Lavender,
        Shade::Text, Shade::Subtext0, Shade::Surface1, Shade::Red, Shade::Teal, Shade::Orange,
    ];
    for s in all {
        let once = resolve(s.color(), true);
        assert!(!matches!(once, TermColor::Rgb(..)));
        assert_eq!(resolve(once, true), once);
    }
    assert_eq!(alert_border(true), Shade::Red);
    assert_eq!(alert_border(false), Shade::Text);
}

#[test]
fn titles_and_help() {
    assert_eq!(process_title(SortBy::Cpu, "", 3, 3), " Processes [sort:CPU] ");
    assert_eq!(process_title(SortBy::DiskWrite, "ng", 2, 140), " Processes [sort:DiskW | filter: \"ng\"] (2/140) ");
    assert_eq!(process_title_shade(""), Shade::Text);
    assert_eq!(process_title_shade("x"), Shade::Yellow);
    assert_eq!(help_line(1, false), "[Tab] Next View | [1-5] Jump | [e] Export | [q] Quit");
    assert!(help_line(0, false).contains("[Ctrl+C] Clear"));
    assert!(!help_line(0, true).contains("[Ctrl+C] Clear"));
}

#[test]
fn popups() {
    assert_eq!(
        search_popup("ng", 4, true),
        "\n  > ng█\n\n  4 result(s) found\n\n  [Enter/Esc] Close | [Backspace] Delete\n  [Ctrl+C] Clear & Close"
    );
    assert!(search_popup("", 0, false).starts_with("\n  >  \n"));
    assert_eq!(kill_prompt(Some("bash"), Some(10)), "\n Kill process \"bash\" (PID: 10) ?\n\n [y] Yes, kill it\n [n / Esc] Cancel");
    assert_eq!(kill_prompt(None, Some(10)), "\n Kill process ?\n\n [y] Yes, kill it\n [n / Esc] Cancel");
}

#[test]
fn uptime_formats() {
    assert_eq!(uptime_text(90061), "1d 01h 01m 01s");
    assert_eq!(uptime_text(3599), "00h 59m 59s");
    assert_eq!(uptime_text(0), "00h 00m 00s");
    assert_eq!(uptime_text(86400 * 12 + 36000), "12d 10h 00m 00s");
}

#[test]
fn cpu_grid_covers_every_cpu_once() {
    assert_eq!(cpu_grid(4), (1, 4));
    assert_eq!(cpu_grid(8), (1, 8));
    assert_eq!(cpu_grid(9), (2, 5));
    assert_eq!(cpu_grid(16), (2, 8));
    for n in 1..40usize {
        let (cols, rows) = cpu_grid(n);
        let mut seen = vec![0; n];
        for r in 0..rows {
            for c in 0..cols {
                if r * cols + c < n {
                    seen[r * cols + c] += 1;
                }
            }
        }
        assert!(seen.iter().all(|&k| k == 1));
    }
}

#[test]
fn popup_is_centred() {
    let a = centered_rect(40, 25, Area { x: 0, y: 0, width: 100, height: 100 });
    assert_eq!(a, Area { x: 30, y: 37, width: 40, height: 25 });
}

#[test]
fn popup_stays_inside_odd_areas() {
    for (px, py, area) in [
        (40u16, 25u16, Area { x: 3, y: 5, width: 17, height: 9 }),
        (30, 25, Area { x: 0, y: 0, width: 1, height: 1 }),
        (100, 100, Area { x: 10, y: 10, width: 80, height: 24 }),
        (0, 0, Area { x: 2, y: 2, width: 50, height: 50 }),
    ] {
        let a = centered_rect(px, py, area);
        assert!(area.x <= a.x && a.x + a.width <= area.x + area.width);
        assert!(area.y <= a.y && a.y + a.height <= area.y + area.height);
    }
    assert_eq!(centered_rect(100, 100, Area { x: 10, y: 10, width: 80, height: 24 }), Area { x: 10, y: 10, width: 80, height: 24 });
}

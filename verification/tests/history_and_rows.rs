use resource_monitor::history::{chart_points, record_per_cpu, record_sample, HISTORY_LEN};
use resource_monitor::process::{account_map, is_match, matching_indices, name_owners, owner_of, sort_rows, ProcessSample, SortBy, UserEntry};
use std::collections::VecDeque;

#[test]
fn history_keeps_the_newest_readings() {
    let mut h: VecDeque<u32> = VecDeque::new();
    for i in 0..(HISTORY_LEN as u32 + 5) {
        record_sample(&mut h, i);
        assert!(h.len() <= HISTORY_LEN);
    }
    assert_eq!(h.len(), HISTORY_LEN);
    assert_eq!(h.front(), Some(&5));
    assert_eq!(h.back(), Some(&(HISTORY_LEN as u32 + 4)));
}

#[test]
fn per_cpu_histories() {
    let mut hs: Vec<VecDeque<f32>> = vec![VecDeque::new(), VecDeque::new(), VecDeque::new()];
    record_per_cpu(&mut hs, &vec![1.0, 2.0]);
    assert_eq!(hs[0], VecDeque::from(vec![1.0]));
    assert_eq!(hs[1], VecDeque::from(vec![2.0]));
    assert!(hs[2].is_empty());
    record_per_cpu(&mut hs, &vec![3.0, 4.0, 5.0, 6.0]);
    assert_eq!(hs[2], VecDeque::from(vec![5.0]));
    assert_eq!(hs[0], VecDeque::from(vec![1.0, 3.0]));
}

#[test]
fn chart_points_pad_then_newest() {
    let h: VecDeque<u32> = VecDeque::from(vec![1, 2, 3]);
    assert_eq!(chart_points(&h, 5, 0), vec![(0, 0), (1, 0), (2, 0), (3, 1), (4, 2), (5, 3)]);
    assert_eq!(chart_points(&h, 3, 0), vec![(0, 2), (1, 3)]);
    assert_eq!(chart_points(&h, 1, 0), vec![(0, 2), (1, 3)]);
    assert_eq!(chart_points(&h, 0, 0), vec![]);
}

fn sample(pid: u32, name: &str, mem: u64, read: u64) -> ProcessSample {
    ProcessSample { pid, name: name.to_string(), uid: Some(pid % 2), cpu_key: 0, mem, disk_read: read, disk_write: 0 }
}

#[test]
fn owners_last_entry_wins() {
    let users = vec![
        UserEntry { uid: 0, name: "root".to_string() },
        UserEntry { uid: 1, name: "ann".to_string() },
        UserEntry { uid: 1, name: "bob".to_string() },
    ];
    let accounts = account_map(&users);
    assert_eq!(accounts.len(), 2);
    assert_eq!(owner_of(&accounts, Some(1)), "bob");
    assert_eq!(owner_of(&accounts, Some(0)), "root");
    assert_eq!(owner_of(&accounts, Some(7)), "");
    assert_eq!(owner_of(&accounts, None), "");
    let rows = name_owners(&vec![sample(3, "a", 1, 1), sample(4, "b", 1, 1)], &users);
    assert_eq!(rows[0].user, "bob");
    assert_eq!(rows[1].user, "root");
}

#[test]
fn sorting_is_descending_and_a_permutation() {
    let rows = name_owners(
        &vec![sample(1, "a", 5, 9), sample(2, "b", 50, 1), sample(3, "c", 7, 9), sample(4, "d", 7, 3)],
        &Vec::new(),
    );
    let by_mem: Vec<u32> = sort_rows(rows, SortBy::Memory).iter().map(|p| p.pid).collect();
    assert_eq!(by_mem[0], 2);
    assert_eq!(by_mem[3], 1);
    let mut set = by_mem.clone();
    set.sort();
    assert_eq!(set, vec![1, 2, 3, 4]);
    let rows = name_owners(&vec![sample(1, "a", 5, 9), sample(2, "b", 50, 1), sample(4, "d", 7, 3)], &Vec::new());
    let by_read: Vec<u32> = sort_rows(rows, SortBy::DiskRead).iter().map(|p| p.pid).collect();
    assert_eq!(by_read, vec![1, 4, 2]);
}

#[test]
fn cpu_order_follows_the_readings() {
    let mut samples = Vec::new();
    for (pid, cpu) in [(1u32, 0.5f32), (2, 12.25), (3, 3.0), (4, 100.0), (5, 0.0)] {
        samples.push(ProcessSample { pid, name: String::new(), uid: None, cpu_key: cpu.to_bits(), mem: 0, disk_read: 0, disk_write: 0 });
    }
    let pids: Vec<u32> = sort_rows(name_owners(&samples, &Vec::new()), SortBy::Cpu).iter().map(|p| p.pid).collect();
    assert_eq!(pids, vec![4, 2, 3, 1, 5]);
}

#[test]
fn filter_by_lowered_name_or_pid() {
    let rows = name_owners(&vec![sample(41, "FIREFOX", 0, 0), sample(7, "bash", 0, 0), sample(412, "sshd", 0, 0)], &Vec::new());
    assert_eq!(matching_indices(&rows, "fire"), vec![0]);
    assert_eq!(matching_indices(&rows, "Fire"), vec![0]);
    assert_eq!(matching_indices(&rows, "41"), vec![0, 2]);
    assert_eq!(matching_indices(&rows, ""), vec![0, 1, 2]);
    assert_eq!(matching_indices(&rows, "zsh"), Vec::<usize>::new());
    assert!(is_match("firefox", 1, "fox"));
    assert!(is_match("x", 120, "20"));
    assert!(!is_match("x", 120, "21"));
}

#[test]
fn longer_query_narrows_the_filter() {
    let rows = name_owners(
        &vec![sample(41, "FIREFOX", 0, 0), sample(7, "bash", 0, 0), sample(412, "Fish", 0, 0), sample(9, "ssh-agent", 0, 0)],
        &Vec::new(),
    );
    let mut query = String::new();
    let mut previous = matching_indices(&rows, &query);
    assert_eq!(previous, vec![0, 1, 2, 3]);
    for c in "fis".chars() {
        query.push(c);
        let now = matching_indices(&rows, &query);
        assert!(now.iter().all(|i| previous.contains(i)));
        previous = now;
    }
    assert_eq!(previous, vec![2]);
}

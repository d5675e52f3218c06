//! The process table: its rows, their order, their owners and the filter.

use vstd::prelude::*;
use vstd::multiset::Multiset;
use std::collections::HashMap;
use crate::text::{contains_text, decimal, decimal_string, lower_text, lowered, occurs_in};

verus! {

broadcast use vstd::multiset::group_multiset_axioms, vstd::seq_lib::group_seq_properties,
    vstd::std_specs::hash::group_hash_axioms;

/// The column the process table is ordered by, largest first.
#[derive(Clone, Copy, Debug, PartialEq, Eq, Structural)]
pub enum SortBy {
    Cpu,
    Memory,
    DiskRead,
    DiskWrite,
}

/// One row of the process table.
pub struct ProcessInfo {
    pub pid: u32,
    pub name: String,
    pub user: String,
    /// The CPU usage as the key it is ordered by: the bit pattern of the
    /// non-negative `f32` reading, whose integer order is the order of
    /// the readings.
    pub cpu_key: u32,
    /// Resident memory in bytes.
    pub mem: u64,
    pub disk_read: u64,
    pub disk_write: u64,
}

/// A `ProcessInfo` as plain values.
pub struct ProcessView {
    pub pid: u32,
    pub name: Seq<char>,
    pub user: Seq<char>,
    pub cpu_key: u32,
    pub mem: u64,
    pub disk_read: u64,
    pub disk_write: u64,
}

impl View for ProcessInfo {
    type V = ProcessView;

    open spec fn view(&self) -> ProcessView {
        ProcessView {
            pid: self.pid,
            name: self.name@,
            user: self.user@,
            cpu_key: self.cpu_key,
            mem: self.mem,
            disk_read: self.disk_read,
            disk_write: self.disk_write,
        }
    }
}

/// The rows of a table as plain values.
pub open spec fn rows_view(rows: Seq<ProcessInfo>) -> Seq<ProcessView> {
    rows.map_values(|p: ProcessInfo| p@)
}

/// A process as the system reports it, before its owner is named.
pub struct ProcessSample {
    pub pid: u32,
    pub name: String,
    /// The id of the user that owns the process, when known.
    pub uid: Option<u32>,
    pub cpu_key: u32,
    pub mem: u64,
    pub disk_read: u64,
    pub disk_write: u64,
}

/// A user account of the system.
pub struct UserEntry {
    pub uid: u32,
    pub name: String,
}

/// The accounts as pairs of id and name.
pub open spec fn users_view(users: Seq<UserEntry>) -> Seq<(u32, Seq<char>)> {
    users.map_values(|u: UserEntry| (u.uid, u.name@))
}

/// The name of the account `uid` in `users`; where an id occurs more than
/// once, the last entry counts, as in a map built from the list in order.
pub open spec fn account_name(users: Seq<(u32, Seq<char>)>, uid: u32) -> Option<Seq<char>>
    decreases users.len(),
{
    if users.len() == 0 {
        None
    } else if users.last().0 == uid {
        Some(users.last().1)
    } else {
        account_name(users.drop_last(), uid)
    }
}

/// The owner shown for a process: its account's name, or empty when the
/// owner or the account is unknown.
pub open spec fn owner_name(users: Seq<(u32, Seq<char>)>, uid: Option<u32>) -> Seq<char> {
    match uid {
        Some(u) => match account_name(users, u) {
            Some(n) => n,
            None => Seq::empty(),
        },
        None => Seq::empty(),
    }
}

/// The map from account id to name holds exactly the accounts of `users`,
/// the last entry of an id counting.
pub open spec fn names_the_accounts(m: Map<u32, String>, users: Seq<(u32, Seq<char>)>) -> bool {
    forall|u: u32|
        #![trigger m.contains_key(u)]
        #![trigger account_name(users, u)]
        (m.contains_key(u) <==> account_name(users, u) is Some) && (m.contains_key(u) ==> Some(m[u]@)
            == account_name(users, u))
}

/// The map from account id to name, built in the order of the list so
/// that a later entry of an id replaces an earlier one.
pub fn account_map(users: &Vec<UserEntry>) -> (m: HashMap<u32, String>)
    ensures
        names_the_accounts(m@, users_view(users@)),
{
    let ghost all = users_view(users@);
    let mut m: HashMap<u32, String> = HashMap::new();
    let mut i: usize = 0;
    while i < users.len()
        invariant
            i <= users.len(),
            all == users_view(users@),
            names_the_accounts(m@, all.take(i as int)),
        decreases users.len() - i,
    {
        let name = users[i].name.clone();
        let uid = users[i].uid;
        let ghost before = m@;
        m.insert(uid, name);
        proof {
            let t = all.take(i + 1);
            assert(t.drop_last() =~= all.take(i as int));
            assert(t.last() == (uid, name@));
            assert forall|u: u32|
                #![trigger m@.contains_key(u)]
                #![trigger account_name(t, u)]
                (m@.contains_key(u) <==> account_name(t, u) is Some) && (m@.contains_key(u) ==> Some(m@[u]@)
                    == account_name(t, u)) by {
                if u != uid {
                    assert(account_name(t, u) == account_name(all.take(i as int), u));
                    assert(m@.contains_key(u) == before.contains_key(u));
                }
            }
        }
        i = i + 1;
    }
    assert(all.take(i as int) =~= all);
    m
}

/// The owner shown for a process with owner `uid`, from the account map.
pub fn owner_of(accounts: &HashMap<u32, String>, uid: Option<u32>) -> (name: String)
    ensures
        forall|users: Seq<(u32, Seq<char>)>| names_the_accounts(accounts@, users) ==> name@ == owner_name(users, uid),
{
    match uid {
        None => String::new(),
        Some(u) => match accounts.get(&u) {
            Some(n) => n.clone(),
            None => String::new(),
        },
    }
}

/// The row a sample becomes once its owner is named.
pub open spec fn row_of(s: ProcessSample, users: Seq<(u32, Seq<char>)>) -> ProcessView {
    ProcessView {
        pid: s.pid,
        name: s.name@,
        user: owner_name(users, s.uid),
        cpu_key: s.cpu_key,
        mem: s.mem,
        disk_read: s.disk_read,
        disk_write: s.disk_write,
    }
}

/// The rows the samples become, in the same order.
pub open spec fn rows_of(samples: Seq<ProcessSample>, users: Seq<(u32, Seq<char>)>) -> Seq<ProcessView> {
    samples.map_values(|s: ProcessSample| row_of(s, users))
}

/// Names the owner of each sample.
pub fn name_owners(samples: &Vec<ProcessSample>, users: &Vec<UserEntry>) -> (rows: Vec<ProcessInfo>)
    ensures
        rows_view(rows@) == rows_of(samples@, users_view(users@)),
{
    let accounts = account_map(users);
    let mut rows: Vec<ProcessInfo> = Vec::new();
    let mut i: usize = 0;
    while i < samples.len()
        invariant
            i <= samples.len(),
            names_the_accounts(accounts@, users_view(users@)),
            rows_view(rows@) == rows_of(samples@.take(i as int), users_view(users@)),
        decreases samples.len() - i,
    {
        let ghost before = rows@;
        let s = &samples[i];
        let user = owner_of(&accounts, s.uid);
        let name = s.name.clone();
        rows.push(ProcessInfo {
            pid: s.pid,
            name,
            user,
            cpu_key: s.cpu_key,
            mem: s.mem,
            disk_read: s.disk_read,
            disk_write: s.disk_write,
        });
        proof {
            assert(rows_view(rows@) =~= rows_view(before).push(row_of(samples@[i as int], users_view(users@))));
            assert(samples@.take(i + 1) =~= samples@.take(i as int).push(samples@[i as int]));
        }
        i = i + 1;
        assert(rows_view(rows@) =~= rows_of(samples@.take(i as int), users_view(users@)));
    }
    assert(samples@.take(i as int) =~= samples@);
    rows
}

/// The value a row is ordered by under `by`.
pub open spec fn sort_key(p: ProcessView, by: SortBy) -> nat {
    match by {
        SortBy::Cpu => p.cpu_key as nat,
        SortBy::Memory => p.mem as nat,
        SortBy::DiskRead => p.disk_read as nat,
        SortBy::DiskWrite => p.disk_write as nat,
    }
}

fn key_of(p: &ProcessInfo, by: SortBy) -> (k: u64)
    ensures
        k as nat == sort_key(p@, by),
{
    match by {
        SortBy::Cpu => p.cpu_key as u64,
        SortBy::Memory => p.mem,
        SortBy::DiskRead => p.disk_read,
        SortBy::DiskWrite => p.disk_write,
    }
}

/// The rows are in order of `by`, largest first.
pub open spec fn sorted_by(rows: Seq<ProcessView>, by: SortBy) -> bool {
    forall|i: int, j: int| 0 <= i < j < rows.len() ==> sort_key(rows[i], by) >= sort_key(rows[j], by)
}

/// Puts the rows in order of `by`, largest first. Rows with equal keys
/// may come in any order.
pub fn sort_rows(rows: Vec<ProcessInfo>, by: SortBy) -> (sorted: Vec<ProcessInfo>)
    ensures
        rows_view(sorted@).to_multiset() == rows_view(rows@).to_multiset(),
        sorted_by(rows_view(sorted@), by),
        by == SortBy::Cpu ==> forall|i: int, j: int|
            0 <= i < j < sorted@.len() ==> sorted@[i].cpu_key >= sorted@[j].cpu_key,
        by == SortBy::Memory ==> forall|i: int, j: int|
            0 <= i < j < sorted@.len() ==> sorted@[i].mem >= sorted@[j].mem,
        by == SortBy::DiskRead ==> forall|i: int, j: int|
            0 <= i < j < sorted@.len() ==> sorted@[i].disk_read >= sorted@[j].disk_read,
        by == SortBy::DiskWrite ==> forall|i: int, j: int|
            0 <= i < j < sorted@.len() ==> sorted@[i].disk_write >= sorted@[j].disk_write,
{
    let mut rest = rows;
    let ghost all = rows_view(rest@).to_multiset();
    let mut sorted: Vec<ProcessInfo> = Vec::new();
    while rest.len() > 0
        invariant
            rows_view(sorted@).to_multiset().add(rows_view(rest@).to_multiset()) == all,
            sorted_by(rows_view(sorted@), by),
        decreases rest.len(),
    {
        let ghost before_rest = rest@;
        let ghost before_sorted = sorted@;
        let item = rest.pop().unwrap();
        proof {
            assert(before_rest =~= rest@.push(item));
            assert(rows_view(before_rest) =~= rows_view(rest@).push(item@));
        }
        let k = key_of(&item, by);
        let mut j: usize = 0;
        while j < sorted.len() && key_of(&sorted[j], by) >= k
            invariant
                j <= sorted.len(),
                forall|m: int| 0 <= m < j ==> sort_key(#[trigger] sorted@[m]@, by) >= k,
            decreases sorted.len() - j,
        {
            j = j + 1;
        }
        proof {
            if j < sorted.len() {
                assert(sort_key(sorted@[j as int]@, by) < k);
                assert forall|m: int| j <= m < sorted.len() implies sort_key(#[trigger] sorted@[m]@, by) < k by {
                    assert(rows_view(sorted@)[j as int] == sorted@[j as int]@);
                    assert(rows_view(sorted@)[m] == sorted@[m]@);
                }
            }
        }
        sorted.insert(j, item);
        proof {
            assert(rows_view(sorted@) =~= rows_view(before_sorted).insert(j as int, item@));
            vstd::seq_lib::to_multiset_insert(rows_view(before_sorted), j as int, item@);
            vstd::seq_lib::to_multiset_build(rows_view(rest@), item@);
            assert forall|a: int, b: int| 0 <= a < b < rows_view(sorted@).len() implies sort_key(
                rows_view(sorted@)[a],
                by,
            ) >= sort_key(rows_view(sorted@)[b], by) by {
                let s = rows_view(before_sorted);
                if b < j {
                    assert(rows_view(sorted@)[a] == s[a]);
                    assert(rows_view(sorted@)[b] == s[b]);
                } else if b == j {
                    assert(rows_view(sorted@)[a] == before_sorted[a]@);
                } else if a == j {
                    assert(rows_view(sorted@)[b] == before_sorted[b - 1]@);
                } else if a < j {
                    assert(rows_view(sorted@)[a] == s[a]);
                    assert(rows_view(sorted@)[b] == s[b - 1]);
                } else {
                    assert(rows_view(sorted@)[a] == s[a - 1]);
                    assert(rows_view(sorted@)[b] == s[b - 1]);
                }
            }
            assert(rows_view(sorted@).to_multiset().add(rows_view(rest@).to_multiset()) =~= all);
        }
    }
    proof {
        assert(rows_view(rest@) =~= Seq::<ProcessView>::empty());
        assert(rows_view(rest@).to_multiset() =~= Multiset::<ProcessView>::empty());
        assert forall|i: int, j: int| 0 <= i < j < sorted@.len() implies sort_key(sorted@[i]@, by) >= sort_key(
            sorted@[j]@,
            by,
        ) by {
            assert(rows_view(sorted@)[i] == sorted@[i]@);
            assert(rows_view(sorted@)[j] == sorted@[j]@);
        }
    }
    sorted
}


/// A row passes the filter when its lowered name or its pid's numeral
/// contains the lowered query.
pub open spec fn row_matches(p: ProcessView, lowered_query: Seq<char>) -> bool {
    occurs_in(lowered_query, lowered(p.name)) || occurs_in(lowered_query, decimal(p.pid as nat))
}

/// The indices below `n` of the rows that pass the filter, in increasing order.
pub open spec fn matching_upto(rows: Seq<ProcessView>, lowered_query: Seq<char>, n: int) -> Seq<usize>
    decreases n,
{
    if n <= 0 {
        Seq::empty()
    } else if row_matches(rows[n - 1], lowered_query) {
        matching_upto(rows, lowered_query, n - 1).push((n - 1) as usize)
    } else {
        matching_upto(rows, lowered_query, n - 1)
    }
}

/// The indices `0` to `n - 1`, in order.
pub open spec fn all_indices(n: nat) -> Seq<usize> {
    Seq::new(n, |i: int| i as usize)
}

/// The indices of the rows that pass the filter for `query`, in order:
/// all of them when the lowered query is empty.
pub open spec fn matching(rows: Seq<ProcessView>, query: Seq<char>) -> Seq<usize> {
    if lowered(query).len() == 0 {
        all_indices(rows.len())
    } else {
        matching_upto(rows, lowered(query), rows.len() as int)
    }
}

/// The filter keeps indices of the table only, each once, in order.
pub proof fn lemma_matching_is_valid(rows: Seq<ProcessView>, query: Seq<char>)
    requires
        rows.len() <= usize::MAX,
    ensures
        valid_indices(matching(rows, query), rows.len() as int),
{
    lemma_matching_valid(rows, lowered(query), rows.len() as int);
}

/// A list of indices into a table of `n` rows, each below `n`, increasing.
pub open spec fn valid_indices(idx: Seq<usize>, n: int) -> bool {
    &&& forall|k: int| 0 <= k < idx.len() ==> #[trigger] idx[k] < n
    &&& forall|a: int, b: int| 0 <= a < b < idx.len() ==> idx[a] < idx[b]
}

/// The filter keeps indices of the table only, each once, in order.
pub proof fn lemma_matching_valid(rows: Seq<ProcessView>, lowered_query: Seq<char>, n: int)
    requires
        0 <= n <= rows.len(),
        rows.len() <= usize::MAX,
    ensures
        valid_indices(matching_upto(rows, lowered_query, n), n),
    decreases n,
{
    if n > 0 {
        lemma_matching_valid(rows, lowered_query, n - 1);
        let prev = matching_upto(rows, lowered_query, n - 1);
        let cur = matching_upto(rows, lowered_query, n);
        if row_matches(rows[n - 1], lowered_query) {
            assert(cur == prev.push((n - 1) as usize));
            assert forall|a: int, b: int| 0 <= a < b < cur.len() implies cur[a] < cur[b] by {
                assert(cur[a] == prev[a]);
                if b == cur.len() - 1 {
                    assert(prev[a] < n - 1);
                    assert(cur[b] == n - 1);
                } else {
                    assert(cur[b] == prev[b]);
                    assert(prev[a] < prev[b]);
                }
            }
            assert forall|k: int| 0 <= k < cur.len() implies #[trigger] cur[k] < n by {
                if k < prev.len() {
                    assert(prev[k] < n - 1);
                }
            }
        }
    }
}

/// Whether a row passes the filter, from its lowered name, its pid and the
/// lowered query.
pub fn is_match(lowered_name: &str, pid: u32, lowered_query: &str) -> (b: bool)
    ensures
        b == (occurs_in(lowered_query@, lowered_name@) || occurs_in(lowered_query@, decimal(pid as nat))),
{
    if contains_text(lowered_name, lowered_query) {
        true
    } else {
        let digits = decimal_string(pid as u64);
        contains_text(digits.as_str(), lowered_query)
    }
}

/// The indices of the rows whose lowered name or pid contains the lowered
/// `query`; all of them when the lowered query is empty.
pub fn matching_indices(rows: &Vec<ProcessInfo>, query: &str) -> (idx: Vec<usize>)
    ensures
        idx@ == matching(rows_view(rows@), query@),
{
    let lq = lower_text(query);
    let ghost v = rows_view(rows@);
    let empty = lq.as_str().unicode_len() == 0;
    let mut idx: Vec<usize> = Vec::new();
    let mut i: usize = 0;
    while i < rows.len()
        invariant
            i <= rows.len(),
            v == rows_view(rows@),
            lq@ == lowered(query@),
            empty == (lq@.len() == 0),
            empty ==> idx@ == all_indices(i as nat),
            !empty ==> idx@ == matching_upto(v, lq@, i as int),
        decreases rows.len() - i,
    {
        let keep = if empty {
            true
        } else {
            let lowered_name = lower_text(rows[i].name.as_str());
            is_match(lowered_name.as_str(), rows[i].pid, lq.as_str())
        };
        assert(v[i as int] == rows@[i as int]@);
        if keep {
            idx.push(i);
        }
        i = i + 1;
        assert(empty ==> idx@ =~= all_indices(i as nat));
    }
    idx
}

} // verus!

//! Facts about the machine read from raw text: CPU caches, the frequency
//! governor, the temperature sensor, interface addresses; and where a
//! snapshot of the process table is written.

use vstd::prelude::*;
use crate::text::{
    append_decimal, chars_of, contains_text, copy_text, decimal, lower_text, lowered, occurs_in, parse_u32,
    parse_unsigned, push_char, same_text, trim, trimmed,
};

verus! {

/// The level and size files of one CPU cache, as read.
pub struct CacheEntry {
    pub level: String,
    pub size: String,
}

/// The entries as pairs of texts.
pub open spec fn cache_view(entries: Seq<CacheEntry>) -> Seq<(Seq<char>, Seq<char>)> {
    entries.map_values(|e: CacheEntry| (e.level@, e.size@))
}

/// The text without its `K` characters.
pub open spec fn without_k(s: Seq<char>) -> Seq<char> {
    s.filter(|c: char| c != 'K')
}

/// What an entry adds to the L1 total: its size in KiB when its level is
/// 1 and its size reads as a number once its `K`s are dropped.
pub open spec fn l1_part(e: (Seq<char>, Seq<char>)) -> nat {
    if trimmed(e.0) == "1"@ {
        match parse_unsigned(without_k(trimmed(e.1)), u32::MAX as nat) {
            Some(k) => k,
            None => 0,
        }
    } else {
        0
    }
}

/// The L1 total in KiB over the entries.
pub open spec fn l1_total(entries: Seq<(Seq<char>, Seq<char>)>) -> nat
    decreases entries.len(),
{
    if entries.len() == 0 {
        0
    } else {
        l1_total(entries.drop_last()) + l1_part(entries.last())
    }
}

/// The size given by the last entry of a level, trimmed.
pub open spec fn size_of_level(entries: Seq<(Seq<char>, Seq<char>)>, level: Seq<char>) -> Option<Seq<char>>
    decreases entries.len(),
{
    if entries.len() == 0 {
        None
    } else if trimmed(entries.last().0) == level {
        Some(trimmed(entries.last().1))
    } else {
        size_of_level(entries.drop_last(), level)
    }
}

/// A size, or `Unknown` when there is none.
pub open spec fn or_unknown(s: Option<Seq<char>>) -> Seq<char> {
    match s {
        Some(t) => t,
        None => "Unknown"@,
    }
}

/// The L1 text: the total with a `K`, or `Unknown` when it is zero.
pub open spec fn l1_text(total: nat) -> Seq<char> {
    if total > 0 {
        decimal(total) + "K"@
    } else {
        "Unknown"@
    }
}

fn drop_k(s: &str) -> (r: String)
    ensures
        r@ == without_k(s@),
{
    let c = chars_of(s);
    let mut r = String::new();
    let mut i: usize = 0;
    while i < c.len()
        invariant
            c@ == s@,
            i <= c.len(),
            r@ == without_k(s@.take(i as int)),
        decreases c.len() - i,
    {
        proof {
            assert(s@.take(i + 1).drop_last() =~= s@.take(i as int));
            s@.take(i as int).lemma_filter_push(s@[i as int], |c: char| c != 'K');
            assert(s@.take(i as int).push(s@[i as int]) =~= s@.take(i + 1));
        }
        if c[i] != 'K' {
            push_char(&mut r, c[i]);
        }
        i = i + 1;
    }
    assert(s@.take(i as int) =~= s@);
    r
}

/// The L1, L2 and L3 cache texts from the cache entries, as the CPU view
/// shows them: L1 as the total of the level-1 entries in KiB, L2 and L3
/// as the last size given for their level. `None` when the L1 total does
/// not fit in a `u32`.
pub fn cache_summary(entries: &Vec<CacheEntry>) -> (r: Option<(String, String, String)>)
    ensures
        match r {
            Some((l1, l2, l3)) => {
                &&& l1_total(cache_view(entries@)) <= u32::MAX
                &&& l1@ == l1_text(l1_total(cache_view(entries@)))
                &&& l2@ == or_unknown(size_of_level(cache_view(entries@), "2"@))
                &&& l3@ == or_unknown(size_of_level(cache_view(entries@), "3"@))
            },
            None => l1_total(cache_view(entries@)) > u32::MAX,
        },
{
    let ghost all = cache_view(entries@);
    let mut l1: u32 = 0;
    let mut l2: Option<String> = None;
    let mut l3: Option<String> = None;
    let mut i: usize = 0;
    while i < entries.len()
        invariant
            all == cache_view(entries@),
            i <= entries.len(),
            l1 as nat == l1_total(all.take(i as int)),
            match l2 {
                Some(t) => size_of_level(all.take(i as int), "2"@) == Some(t@),
                None => size_of_level(all.take(i as int), "2"@) is None,
            },
            match l3 {
                Some(t) => size_of_level(all.take(i as int), "3"@) == Some(t@),
                None => size_of_level(all.take(i as int), "3"@) is None,
            },
        decreases entries.len() - i,
    {
        let lvl = trim(entries[i].level.as_str());
        let sz = trim(entries[i].size.as_str());
        proof {
            assert(all.take(i + 1).drop_last() =~= all.take(i as int));
            assert(all.take(i + 1).last() == all[i as int]);
            assert(all[i as int] == (entries@[i as int].level@, entries@[i as int].size@));
            assert(trimmed(all.take(i + 1).last().0) == lvl@);
            assert(trimmed(all.take(i + 1).last().1) == sz@);
        }
        let ghost lv = lvl@;
        let ghost sv = sz@;
        if same_text(lvl.as_str(), "1") {
            let digits = drop_k(sz.as_str());
            match parse_u32(digits.as_str()) {
                Some(k) => {
                    if l1 > u32::MAX - k {
                        proof {
                            lemma_l1_total_prefix(all, i + 1);
                        }
                        return None;
                    }
                    l1 = l1 + k;
                },
                None => {},
            }
        } else if same_text(lvl.as_str(), "2") {
            l2 = Some(sz);
        } else if same_text(lvl.as_str(), "3") {
            l3 = Some(sz);
        }
        proof {
            reveal_strlit("1");
            reveal_strlit("2");
            reveal_strlit("3");
            assert("1"@[0] == '1' && "2"@[0] == '2' && "3"@[0] == '3');
            if lv == "2"@ {
                assert(size_of_level(all.take(i + 1), "2"@) == Some(sv));
            } else {
                assert(size_of_level(all.take(i + 1), "2"@) == size_of_level(all.take(i as int), "2"@));
            }
            if lv == "3"@ {
                assert(size_of_level(all.take(i + 1), "3"@) == Some(sv));
            } else {
                assert(size_of_level(all.take(i + 1), "3"@) == size_of_level(all.take(i as int), "3"@));
            }
        }
        i = i + 1;
    }
    assert(all.take(i as int) =~= all);
    let l1_str = if l1 > 0 {
        let mut t = String::new();
        append_decimal(&mut t, l1 as u64);
        t.append("K");
        t
    } else {
        copy_text("Unknown")
    };
    let l2_str = match l2 {
        Some(t) => t,
        None => copy_text("Unknown"),
    };
    let l3_str = match l3 {
        Some(t) => t,
        None => copy_text("Unknown"),
    };
    Some((l1_str, l2_str, l3_str))
}

/// The L1 total only grows along the entries.
pub proof fn lemma_l1_total_prefix(s: Seq<(Seq<char>, Seq<char>)>, k: int)
    requires
        0 <= k <= s.len(),
    ensures
        l1_total(s.take(k)) <= l1_total(s),
    decreases s.len() - k,
{
    if k < s.len() {
        lemma_l1_total_prefix(s, k + 1);
        assert(s.take(k + 1).drop_last() =~= s.take(k));
    } else {
        assert(s.take(k) =~= s);
    }
}

/// The governor text from the file's contents, if it could be read.
pub open spec fn governor_text_of(read: Option<Seq<char>>) -> Seq<char> {
    match read {
        Some(t) => trimmed(t),
        None => "Unknown"@,
    }
}

/// The frequency governor as the CPU view shows it.
pub fn governor_text(read: Option<&str>) -> (t: String)
    ensures
        t@ == governor_text_of(
            match read {
                Some(s) => Some(s@),
                None => None,
            },
        ),
{
    match read {
        Some(s) => trim(s),
        None => copy_text("Unknown"),
    }
}

/// A sensor label, lowered, names the CPU: it holds `cpu`, `package` or `tctl`.
pub open spec fn names_cpu(lowered: Seq<char>) -> bool {
    occurs_in("cpu"@, lowered) || occurs_in("package"@, lowered) || occurs_in("tctl"@, lowered)
}

/// Whether a lowered sensor label names the CPU.
pub fn is_cpu_label(lowered: &str) -> (b: bool)
    ensures
        b == names_cpu(lowered@),
{
    contains_text(lowered, "cpu") || contains_text(lowered, "package") || contains_text(lowered, "tctl")
}

/// The first sensor among `labels` whose lowered label names the CPU.
pub open spec fn first_cpu_sensor(labels: Seq<Seq<char>>, from: int) -> Option<usize>
    decreases labels.len() - from,
{
    if from < 0 || from >= labels.len() {
        None
    } else if names_cpu(lowered(labels[from])) {
        Some(from as usize)
    } else {
        first_cpu_sensor(labels, from + 1)
    }
}

/// The texts of a list of strings.
pub open spec fn texts_of(v: Seq<String>) -> Seq<Seq<char>> {
    v.map_values(|s: String| s@)
}

/// The index of the sensor whose temperature the CPU view shows.
pub fn find_cpu_sensor(labels: &Vec<String>) -> (r: Option<usize>)
    ensures
        r == first_cpu_sensor(texts_of(labels@), 0),
{
    let ghost all = texts_of(labels@);
    let mut i: usize = 0;
    while i < labels.len()
        invariant
            all == texts_of(labels@),
            i <= labels.len(),
            first_cpu_sensor(all, 0) == first_cpu_sensor(all, i as int),
        decreases labels.len() - i,
    {
        let low = lower_text(labels[i].as_str());
        assert(all[i as int] == labels@[i as int]@);
        if is_cpu_label(low.as_str()) {
            return Some(i);
        }
        i = i + 1;
    }
    None
}

/// The texts joined with `sep` between each two.
pub open spec fn joined(items: Seq<Seq<char>>, sep: Seq<char>) -> Seq<char>
    decreases items.len(),
{
    if items.len() == 0 {
        Seq::empty()
    } else if items.len() == 1 {
        items[0]
    } else {
        joined(items.drop_last(), sep) + sep + items.last()
    }
}

/// An address list as the network view shows it: the addresses joined by
/// commas, or `None` when there are none.
pub open spec fn address_list_of(items: Seq<Seq<char>>) -> Seq<char> {
    if items.len() == 0 {
        "None"@
    } else {
        joined(items, ", "@)
    }
}

/// The addresses holding a `.`, taken as IPv4.
pub open spec fn ipv4_of(addrs: Seq<Seq<char>>) -> Seq<Seq<char>> {
    addrs.filter(|a: Seq<char>| occurs_in("."@, a))
}

/// The addresses without a `.` and holding a `:`, taken as IPv6.
pub open spec fn ipv6_of(addrs: Seq<Seq<char>>) -> Seq<Seq<char>> {
    addrs.filter(|a: Seq<char>| !occurs_in("."@, a) && occurs_in(":"@, a))
}

fn append_item(out: &mut String, count: usize, item: &str)
    ensures
        count == 0 ==> final(out)@ == old(out)@ + item@,
        count > 0 ==> final(out)@ == old(out)@ + ", "@ + item@,
{
    if count > 0 {
        out.append(", ");
    }
    out.append(item);
}

/// The IPv4 and IPv6 columns of an interface from its addresses.
pub fn split_addresses(addrs: &Vec<String>) -> (cols: (String, String))
    ensures
        cols.0@ == address_list_of(ipv4_of(texts_of(addrs@))),
        cols.1@ == address_list_of(ipv6_of(texts_of(addrs@))),
        forall|k: int|
            0 <= k < addrs@.len() && occurs_in("."@, addrs@[k]@) ==> ipv4_of(texts_of(addrs@)).contains(
                #[trigger] addrs@[k]@,
            ),
        forall|k: int|
            0 <= k < addrs@.len() && !occurs_in("."@, addrs@[k]@) && occurs_in(":"@, addrs@[k]@)
                ==> ipv6_of(texts_of(addrs@)).contains(#[trigger] addrs@[k]@),
{
    let ghost all = texts_of(addrs@);
    let mut v4 = String::new();
    let mut v6 = String::new();
    let mut n4: usize = 0;
    let mut n6: usize = 0;
    let mut i: usize = 0;
    while i < addrs.len()
        invariant
            all == texts_of(addrs@),
            i <= addrs.len(),
            n4 <= i,
            n6 <= i,
            n4 == ipv4_of(all.take(i as int)).len(),
            n6 == ipv6_of(all.take(i as int)).len(),
            v4@ == joined(ipv4_of(all.take(i as int)), ", "@),
            v6@ == joined(ipv6_of(all.take(i as int)), ", "@),
        decreases addrs.len() - i,
    {
        let a = addrs[i].as_str();
        proof {
            assert(all[i as int] == a@);
            assert(all.take(i as int).push(a@) =~= all.take(i + 1));
            all.take(i as int).lemma_filter_push(a@, |x: Seq<char>| occurs_in("."@, x));
            all.take(i as int).lemma_filter_push(a@, |x: Seq<char>| !occurs_in("."@, x) && occurs_in(":"@, x));
        }
        if contains_text(a, ".") {
            append_item(&mut v4, n4, a);
            proof {
                let f = ipv4_of(all.take(i + 1));
                assert(f.drop_last() == ipv4_of(all.take(i as int)));
            }
            n4 = n4 + 1;
        } else if contains_text(a, ":") {
            append_item(&mut v6, n6, a);
            proof {
                let f = ipv6_of(all.take(i + 1));
                assert(f.drop_last() == ipv6_of(all.take(i as int)));
            }
            n6 = n6 + 1;
        }
        i = i + 1;
    }
    assert(all.take(i as int) =~= all);
    proof {
        crate::laws::lemma_address_columns(all);
        assert forall|k: int| 0 <= k < addrs@.len() implies #[trigger] addrs@[k]@ == all[k] by {}
    }
    let c4 = if n4 == 0 { copy_text("None") } else { v4 };
    let c6 = if n6 == 0 { copy_text("None") } else { v6 };
    (c4, c6)
}

/// The file a snapshot of the process table is written to.
pub open spec fn export_path_of(home: Seq<char>, timestamp: nat) -> Seq<char> {
    home + "/resource-monitor-"@ + decimal(timestamp) + ".csv"@
}

/// The file a snapshot of the process table is written to, in the home
/// directory and named by the time in seconds.
pub fn export_path(home: &str, timestamp: u64) -> (p: String)
    ensures
        p@ == export_path_of(home@, timestamp as nat),
{
    let mut p = copy_text(home);
    p.append("/resource-monitor-");
    append_decimal(&mut p, timestamp);
    p.append(".csv");
    p
}

} // verus!

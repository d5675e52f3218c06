//! What the screens show: colours, titles, help lines, popups and layout
//! arithmetic that does not depend on the terminal library.

use vstd::prelude::*;
use crate::process::SortBy;
use ratatui::layout::{Constraint, Direction, Layout, Rect};
use crate::text::{append_decimal, append_two_digits, copy_text, decimal, two_digits};

verus! {

/// A terminal colour: true colour, or one of the named colours of the
/// 256-colour palette.
#[derive(Clone, Copy, Debug, PartialEq, Eq, Structural)]
pub enum TermColor {
    Rgb(u8, u8, u8),
    Reset,
    Magenta,
    Yellow,
    Green,
    Cyan,
    White,
    Gray,
    DarkGray,
    Red,
}

/// The named colour that stands for a colour of the theme when true
/// colour is off; other colours stand for themselves.
pub open spec fn fallback(c: TermColor) -> TermColor {
    match c {
        TermColor::Rgb(198, 160, 246) => TermColor::Magenta,
        TermColor::Rgb(245, 169, 127) => TermColor::Yellow,
        TermColor::Rgb(245, 169, 100) => TermColor::Yellow,
        TermColor::Rgb(238, 212, 159) => TermColor::Yellow,
        TermColor::Rgb(166, 218, 149) => TermColor::Green,
        TermColor::Rgb(145, 215, 227) => TermColor::Cyan,
        TermColor::Rgb(125, 196, 228) => TermColor::Cyan,
        TermColor::Rgb(139, 213, 202) => TermColor::Cyan,
        TermColor::Rgb(180, 190, 254) => TermColor::White,
        TermColor::Rgb(202, 211, 245) => TermColor::White,
        TermColor::Rgb(165, 173, 206) => TermColor::Gray,
        TermColor::Rgb(91, 96, 120) => TermColor::DarkGray,
        TermColor::Rgb(237, 135, 150) => TermColor::Red,
        _ => c,
    }
}

/// The colour to draw `color` in: itself with true colour, else its fallback.
pub open spec fn resolved(color: TermColor, no_truecolor: bool) -> TermColor {
    if no_truecolor {
        fallback(color)
    } else {
        color
    }
}

/// The colour to draw `color` in.
pub fn resolve(color: TermColor, no_truecolor: bool) -> (r: TermColor)
    ensures
        r == resolved(color, no_truecolor),
{
    if !no_truecolor {
        return color;
    }
    match color {
        TermColor::Rgb(198, 160, 246) => TermColor::Magenta,
        TermColor::Rgb(245, 169, 127) => TermColor::Yellow,
        TermColor::Rgb(245, 169, 100) => TermColor::Yellow,
        TermColor::Rgb(238, 212, 159) => TermColor::Yellow,
        TermColor::Rgb(166, 218, 149) => TermColor::Green,
        TermColor::Rgb(145, 215, 227) => TermColor::Cyan,
        TermColor::Rgb(125, 196, 228) => TermColor::Cyan,
        TermColor::Rgb(139, 213, 202) => TermColor::Cyan,
        TermColor::Rgb(180, 190, 254) => TermColor::White,
        TermColor::Rgb(202, 211, 245) => TermColor::White,
        TermColor::Rgb(165, 173, 206) => TermColor::Gray,
        TermColor::Rgb(91, 96, 120) => TermColor::DarkGray,
        TermColor::Rgb(237, 135, 150) => TermColor::Red,
        _ => color,
    }
}

/// A colour of the theme.
#[derive(Clone, Copy, Debug, PartialEq, Eq, Structural)]
pub enum Shade {
    Mauve,
    Peach,
    Yellow,
    Green,
    Sky,
    Sapphire,
    Lavender,
    Text,
    Subtext0,
    Surface1,
    Red,
    Teal,
    Orange,
}

/// The true colour of a shade of the theme.
pub open spec fn shade_rgb(s: Shade) -> TermColor {
    match s {
        Shade::Mauve => TermColor::Rgb(198, 160, 246),
        Shade::Peach => TermColor::Rgb(245, 169, 127),
        Shade::Yellow => TermColor::Rgb(238, 212, 159),
        Shade::Green => TermColor::Rgb(166, 218, 149),
        Shade::Sky => TermColor::Rgb(145, 215, 227),
        Shade::Sapphire => TermColor::Rgb(125, 196, 228),
        Shade::Lavender => TermColor::Rgb(180, 190, 254),
        Shade::Text => TermColor::Rgb(202, 211, 245),
        Shade::Subtext0 => TermColor::Rgb(165, 173, 206),
        Shade::Surface1 => TermColor::Rgb(91, 96, 120),
        Shade::Red => TermColor::Rgb(237, 135, 150),
        Shade::Teal => TermColor::Rgb(139, 213, 202),
        Shade::Orange => TermColor::Rgb(245, 169, 100),
    }
}

impl Shade {
    /// The true colour of this shade.
    pub fn color(self) -> (c: TermColor)
        ensures
            c == shade_rgb(self),
    {
        match self {
            Shade::Mauve => TermColor::Rgb(198, 160, 246),
            Shade::Peach => TermColor::Rgb(245, 169, 127),
            Shade::Yellow => TermColor::Rgb(238, 212, 159),
            Shade::Green => TermColor::Rgb(166, 218, 149),
            Shade::Sky => TermColor::Rgb(145, 215, 227),
            Shade::Sapphire => TermColor::Rgb(125, 196, 228),
            Shade::Lavender => TermColor::Rgb(180, 190, 254),
            Shade::Text => TermColor::Rgb(202, 211, 245),
            Shade::Subtext0 => TermColor::Rgb(165, 173, 206),
            Shade::Surface1 => TermColor::Rgb(91, 96, 120),
            Shade::Red => TermColor::Rgb(237, 135, 150),
            Shade::Teal => TermColor::Rgb(139, 213, 202),
            Shade::Orange => TermColor::Rgb(245, 169, 100),
        }
    }
}

/// Every colour of the theme has a named colour to fall back on.
pub proof fn lemma_theme_falls_back(s: Shade)
    ensures
        !(resolved(shade_rgb(s), true) is Rgb),
{
}

/// Without true colour, drawing a colour twice gives what drawing it once gives.
pub proof fn lemma_resolve_idempotent(c: TermColor, no_truecolor: bool)
    ensures
        resolved(resolved(c, no_truecolor), no_truecolor) == resolved(c, no_truecolor),
{
}

/// The border of a chart: red on alert, else the text colour.
pub fn alert_border(alert: bool) -> (s: Shade)
    ensures
        s == (if alert { Shade::Red } else { Shade::Text }),
{
    if alert {
        Shade::Red
    } else {
        Shade::Text
    }
}

/// The short name of an order in the title of the process table.
pub open spec fn sort_label(by: SortBy) -> Seq<char> {
    match by {
        SortBy::Cpu => "CPU"@,
        SortBy::Memory => "Mem"@,
        SortBy::DiskRead => "DiskR"@,
        SortBy::DiskWrite => "DiskW"@,
    }
}

impl SortBy {
    /// The short name of this order.
    pub fn label(self) -> (s: &'static str)
        ensures
            s@ == sort_label(self),
    {
        match self {
            SortBy::Cpu => "CPU",
            SortBy::Memory => "Mem",
            SortBy::DiskRead => "DiskR",
            SortBy::DiskWrite => "DiskW",
        }
    }
}

/// The title of the process table: the order, and with a query the query
/// and how many of all rows pass it.
pub open spec fn process_title_of(by: SortBy, query: Seq<char>, shown: nat, all: nat) -> Seq<char> {
    if query.len() > 0 {
        " Processes [sort:"@ + sort_label(by) + " | filter: \""@ + query + "\"] ("@ + decimal(shown)
            + "/"@ + decimal(all) + ") "@
    } else {
        " Processes [sort:"@ + sort_label(by) + "] "@
    }
}

/// The title of the process table.
pub fn process_title(by: SortBy, query: &str, shown: usize, all: usize) -> (t: String)
    ensures
        t@ == process_title_of(by, query@, shown as nat, all as nat),
{
    let mut t = copy_text(" Processes [sort:");
    t.append(by.label());
    if query.unicode_len() > 0 {
        t.append(" | filter: \"");
        t.append(query);
        t.append("\"] (");
        append_decimal(&mut t, shown as u64);
        t.append("/");
        append_decimal(&mut t, all as u64);
        t.append(") ");
    } else {
        t.append("] ");
    }
    t
}

/// The colour of the process table's border: yellow while a filter is
/// active, else the text colour.
pub fn process_title_shade(query: &str) -> (s: Shade)
    ensures
        s == (if query@.len() > 0 { Shade::Yellow } else { Shade::Text }),
{
    if query.unicode_len() > 0 {
        Shade::Yellow
    } else {
        Shade::Text
    }
}

/// The line of key help under the views.
pub open spec fn help_line_of(active_tab: usize, query_empty: bool) -> Seq<char> {
    if active_tab == 0 {
        if query_empty {
            "[Tab] Next | [1-5] Jump | [↑↓] Nav | [/] Search | [s] Sort | [x] Kill | [e] Export | [q] Quit"@
        } else {
            "[Tab] Next | [1-5] Jump | [↑↓] Nav | [/] Search | [Ctrl+C] Clear | [s] Sort | [x] Kill | [e] Export | [q] Quit"@
        }
    } else {
        "[Tab] Next View | [1-5] Jump | [e] Export | [q] Quit"@
    }
}

/// The line of key help for the tab and whether a filter is active.
pub fn help_line(active_tab: usize, query_empty: bool) -> (s: &'static str)
    ensures
        s@ == help_line_of(active_tab, query_empty),
{
    if active_tab == 0 {
        if query_empty {
            "[Tab] Next | [1-5] Jump | [↑↓] Nav | [/] Search | [s] Sort | [x] Kill | [e] Export | [q] Quit"
        } else {
            "[Tab] Next | [1-5] Jump | [↑↓] Nav | [/] Search | [Ctrl+C] Clear | [s] Sort | [x] Kill | [e] Export | [q] Quit"
        }
    } else {
        "[Tab] Next View | [1-5] Jump | [e] Export | [q] Quit"
    }
}

/// The text of the search popup: the query with the cursor, when it is
/// shown, and how many rows pass.
pub open spec fn search_popup_of(query: Seq<char>, found: nat, cursor_on: bool) -> Seq<char> {
    "\n  > "@ + query + (if cursor_on { "█"@ } else { " "@ }) + "\n\n  "@ + decimal(found)
        + " result(s) found\n\n  [Enter/Esc] Close | [Backspace] Delete\n  [Ctrl+C] Clear & Close"@
}

/// The text of the search popup.
pub fn search_popup(query: &str, found: usize, cursor_on: bool) -> (t: String)
    ensures
        t@ == search_popup_of(query@, found as nat, cursor_on),
{
    let mut t = copy_text("\n  > ");
    t.append(query);
    if cursor_on {
        t.append("█");
    } else {
        t.append(" ");
    }
    t.append("\n\n  ");
    append_decimal(&mut t, found as u64);
    t.append(" result(s) found\n\n  [Enter/Esc] Close | [Backspace] Delete\n  [Ctrl+C] Clear & Close");
    t
}

/// The text of the kill question, naming the process when both its name
/// and its pid are known.
pub open spec fn kill_prompt_of(name: Option<Seq<char>>, pid: Option<u32>) -> Seq<char> {
    let who = match (name, pid) {
        (Some(n), Some(p)) => " \""@ + n + "\" (PID: "@ + decimal(p as nat) + ")"@,
        _ => Seq::empty(),
    };
    "\n Kill process"@ + who + " ?\n\n [y] Yes, kill it\n [n / Esc] Cancel"@
}

/// The text of the kill question.
pub fn kill_prompt(name: Option<&str>, pid: Option<u32>) -> (t: String)
    ensures
        t@ == kill_prompt_of(
            match name {
                Some(n) => Some(n@),
                None => None,
            },
            pid,
        ),
{
    let mut t = copy_text("\n Kill process");
    match (name, pid) {
        (Some(n), Some(p)) => {
            t.append(" \"");
            t.append(n);
            t.append("\" (PID: ");
            append_decimal(&mut t, p as u64);
            t.append(")");
        },
        _ => {},
    }
    t.append(" ?\n\n [y] Yes, kill it\n [n / Esc] Cancel");
    t
}

/// The columns of the per-CPU chart grid: two above eight CPUs, else one.
pub open spec fn grid_cols(n: nat) -> nat {
    if n > 8 {
        2
    } else {
        1
    }
}

/// The rows of the per-CPU chart grid: enough for `n` charts.
pub open spec fn grid_rows(n: nat) -> nat {
    ((n + grid_cols(n) - 1) / (grid_cols(n) as int)) as nat
}

/// The columns and rows of the per-CPU chart grid; the chart of CPU
/// `r * cols + c` goes in row `r`, column `c`.
pub fn cpu_grid(n: usize) -> (grid: (usize, usize))
    requires
        n + grid_cols(n as nat) <= usize::MAX,
    ensures
        grid.0 as nat == grid_cols(n as nat),
        grid.1 as nat == grid_rows(n as nat),
{
    let cols: usize = if n > 8 { 2 } else { 1 };
    let rows = (n + cols - 1) / cols;
    (cols, rows)
}

/// Each CPU has exactly one cell of the grid, and each cell holds at most one CPU.
pub proof fn lemma_grid_covers(n: nat, k: nat)
    requires
        k < n,
    ensures
        k / grid_cols(n) < grid_rows(n),
        (k / grid_cols(n)) * grid_cols(n) + k % grid_cols(n) == k,
        forall|r: nat, c: nat|
            r < grid_rows(n) && c < grid_cols(n) && #[trigger] (r * grid_cols(n) + c) == k ==> r == k
                / grid_cols(n) && c == k % grid_cols(n),
{
    if n > 8 {
        assert(forall|r: nat, c: nat| c < 2 && #[trigger] (r * 2 + c) == k ==> r == k / 2 && c == k % 2);
    }
}

/// How long the system has been up: days only when there are any, then
/// hours, minutes and seconds with two digits each.
pub open spec fn uptime_text_of(secs: nat) -> Seq<char> {
    let days = secs / 86400;
    let hours = (secs % 86400) / 3600;
    let mins = (secs % 3600) / 60;
    let s = secs % 60;
    let clock = two_digits(hours) + "h "@ + two_digits(mins) + "m "@ + two_digits(s) + "s"@;
    if days > 0 {
        decimal(days) + "d "@ + clock
    } else {
        clock
    }
}

/// The uptime as the CPU view shows it.
pub fn uptime_text(secs: u64) -> (t: String)
    ensures
        t@ == uptime_text_of(secs as nat),
{
    let days = secs / 86400;
    let hours = (secs % 86400) / 3600;
    let mins = (secs % 3600) / 60;
    let s = secs % 60;
    let mut t = String::new();
    if days > 0 {
        append_decimal(&mut t, days);
        t.append("d ");
    }
    append_two_digits(&mut t, hours);
    t.append("h ");
    append_two_digits(&mut t, mins);
    t.append("m ");
    append_two_digits(&mut t, s);
    t.append("s");
    t
}


/// A rectangle of terminal cells.
#[derive(Clone, Copy, Debug, PartialEq, Eq, Structural)]
pub struct Area {
    pub x: u16,
    pub y: u16,
    pub width: u16,
    pub height: u16,
}

/// The sum of a list of percentages.
pub open spec fn percent_sum(p: Seq<u16>) -> nat
    decreases p.len(),
{
    if p.len() == 0 {
        0
    } else {
        percent_sum(p.drop_last()) + (p.last() as nat)
    }
}

/// `inner` lies inside `outer`.
pub open spec fn inside(inner: Area, outer: Area) -> bool {
    &&& outer.x <= inner.x
    &&& inner.x + inner.width <= outer.x + outer.width
    &&& outer.y <= inner.y
    &&& inner.y + inner.height <= outer.y + outer.height
}

/// Names the areas that ratatui's `Layout::split` gives when `area` is cut
/// along one axis into parts of the given percentages, summing to at most
/// a hundred.
pub uninterp spec fn percent_split(vertical: bool, percents: Seq<u16>, area: Area) -> Seq<Area>;

/// `Layout::split` of ratatui with one `Constraint::Percentage` per entry,
/// the percentages summing to at most a hundred, where each part gets its
/// share and the remainder stays unused at the end. The parts are named,
/// not spelled out; the source shows one part per entry, each inside the
/// area, keeping the area's extent across the cut.
#[verifier::external_body]
fn split_by_percent(vertical: bool, percents: &Vec<u16>, area: Area) -> (parts: Vec<Area>)
    requires
        percent_sum(percents@) <= 100,
    ensures
        parts@ == percent_split(vertical, percents@, area),
        parts@.len() == percents@.len(),
        forall|i: int| 0 <= i < parts@.len() ==> inside(#[trigger] parts@[i], area),
        forall|i: int|
            0 <= i < parts@.len() ==> if vertical {
                #[trigger] parts@[i].x == area.x && parts@[i].width == area.width
            } else {
                parts@[i].y == area.y && parts@[i].height == area.height
            },
{
    let direction = if vertical { Direction::Vertical } else { Direction::Horizontal };
    let rect = Rect { x: area.x, y: area.y, width: area.width, height: area.height };
    let layout = Layout::default().direction(direction).constraints(percents.iter().map(|p| Constraint::Percentage(*p)));
    layout.split(rect).iter().map(|r| Area { x: r.x, y: r.y, width: r.width, height: r.height }).collect()
}

/// The percentages that centre a part of `percent` percent: equal margins
/// on both sides.
pub open spec fn centred_percents(percent: u16) -> Seq<u16> {
    let margin = ((100 - percent) / 2) as u16;
    seq![margin, percent, margin]
}

/// The percentages that centre a part of `percent` percent.
pub fn popup_percents(percent: u16) -> (p: Vec<u16>)
    requires
        percent <= 100,
    ensures
        p@ == centred_percents(percent),
        percent_sum(p@) <= 100,
{
    let margin = (100 - percent) / 2;
    let mut p = Vec::new();
    p.push(margin);
    p.push(percent);
    p.push(margin);
    proof {
        let q = p@;
        assert(q.drop_last().drop_last().drop_last() =~= Seq::<u16>::empty());
        reveal_with_fuel(percent_sum, 4);
        assert(percent_sum(q) == 2 * ((100 - percent) / 2) + percent);
    }
    p
}

/// The area of a popup: `percent_x` percent of the width and `percent_y`
/// percent of the height of `r`, in its middle.
pub fn centered_rect(percent_x: u16, percent_y: u16, r: Area) -> (a: Area)
    requires
        percent_x <= 100,
        percent_y <= 100,
    ensures
        a == percent_split(false, centred_percents(percent_x), percent_split(true, centred_percents(percent_y), r)[1])[1],
        inside(a, r),
{
    let rows = split_by_percent(true, &popup_percents(percent_y), r);
    let cols = split_by_percent(false, &popup_percents(percent_x), rows[1]);
    assert(inside(rows@[1], r));
    assert(inside(cols@[1], rows@[1]));
    cols[1]
}

} // verus!

//! Bounded histories of readings and the points a chart draws from them.

use vstd::prelude::*;
use std::collections::VecDeque;

verus! {

/// The number of readings a history keeps.
pub const HISTORY_LEN: usize = 1000;

/// The history after `x` is recorded: `x` at the end, the oldest reading
/// dropped once there are more than `HISTORY_LEN`.
pub open spec fn recorded<T>(h: Seq<T>, x: T) -> Seq<T> {
    if h.len() + 1 > HISTORY_LEN {
        h.push(x).drop_first()
    } else {
        h.push(x)
    }
}

/// Records a reading.
pub fn record_sample<T>(history: &mut VecDeque<T>, sample: T)
    ensures
        final(history)@ == recorded(old(history)@, sample),
{
    history.push_back(sample);
    if history.len() > HISTORY_LEN {
        let _ = history.pop_front();
    }
}

/// Records one reading per CPU, the `i`th reading into the `i`th history;
/// readings without a history and histories without a reading are left.
pub fn record_per_cpu<T: Copy>(histories: &mut Vec<VecDeque<T>>, samples: &Vec<T>)
    ensures
        final(histories)@.len() == old(histories)@.len(),
        forall|i: int|
            0 <= i < old(histories)@.len() ==> #[trigger] final(histories)@[i]@ == if i < samples@.len() {
                recorded(old(histories)@[i]@, samples@[i])
            } else {
                old(histories)@[i]@
            },
{
    let ghost before = histories@;
    let mut i: usize = 0;
    while i < histories.len() && i < samples.len()
        invariant
            histories@.len() == before.len(),
            i <= histories@.len(),
            i <= samples@.len(),
            forall|k: int|
                0 <= k < before.len() ==> #[trigger] histories@[k]@ == if k < i {
                    recorded(before[k]@, samples@[k])
                } else {
                    before[k]@
                },
        decreases histories.len() - i,
    {
        let mut h = histories.remove(i);
        record_sample(&mut h, samples[i]);
        histories.insert(i, h);
        i = i + 1;
    }
    proof {
        assert forall|k: int| 0 <= k < before.len() implies #[trigger] histories@[k]@ == if k < samples@.len() {
            recorded(before[k]@, samples@[k])
        } else {
            before[k]@
        } by {
            if k >= i {
                assert(i == samples@.len() || i == histories@.len());
            }
        }
    }
}

/// How many points a chart of `area_width` columns draws: two per column
/// inside the border.
pub open spec fn chart_width(area_width: u16) -> nat {
    if area_width > 2 {
        ((area_width - 2) * 2) as nat
    } else {
        (area_width * 2) as nat
    }
}

/// The points a chart draws from a history: `chart_width` of them, at
/// positions 0, 1, 2, ...; the newest readings, oldest first, fill the
/// right end and `zero` fills the left.
pub open spec fn chart_points_of<T>(h: Seq<T>, area_width: u16, zero: T) -> Seq<(usize, T)> {
    let width = chart_width(area_width);
    let count = if h.len() < width { h.len() } else { width };
    let pad = width - count;
    Seq::new(
        width,
        |i: int|
            if i < pad {
                (i as usize, zero)
            } else {
                (i as usize, h[h.len() - count + (i - pad)])
            },
    )
}

/// The points to chart a history in an area `area_width` columns wide.
pub fn chart_points<T: Copy>(history: &VecDeque<T>, area_width: u16, zero: T) -> (points: Vec<(usize, T)>)
    ensures
        points@ == chart_points_of(history@, area_width, zero),
{
    let width: usize = if area_width > 2 { ((area_width - 2) as usize) * 2 } else { (area_width as usize) * 2 };
    let n = history.len();
    let count = if n < width { n } else { width };
    let pad = width - count;
    let ghost want = chart_points_of(history@, area_width, zero);
    let mut points: Vec<(usize, T)> = Vec::new();
    let mut i: usize = 0;
    while i < width
        invariant
            width == chart_width(area_width),
            n == history@.len(),
            count == (if n < width { n } else { width }),
            pad == width - count,
            want == chart_points_of(history@, area_width, zero),
            i <= width,
            points@ == want.take(i as int),
        decreases width - i,
    {
        if i < pad {
            points.push((i, zero));
        } else {
            let v = history[n - count + (i - pad)];
            points.push((i, v));
        }
        i = i + 1;
        assert(points@ =~= want.take(i as int));
    }
    assert(want.take(width as int) =~= want);
    points
}

} // verus!

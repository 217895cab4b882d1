use vstd::prelude::*;
use crate::duration::UnsignedMillis;

verus! {

/// One observation of a sensor. The three magnitudes are counted in
/// thousandths of their unit (a temperature of 21.5 is `21_500`). The store
/// keeps them as double-precision reals; counts up to 2^53 in magnitude are
/// read back unchanged, larger ones may come back rounded.
#[derive(Debug, Clone, Copy, PartialEq, Eq, Structural)]
pub struct SensorReading {
    /// Milliseconds since the Unix epoch; unique among stored readings.
    pub timestamp: i64,
    pub sensor_id: i32,
    pub temperature: i64,
    pub pressure: i64,
    pub vibration: i64,
}

impl SensorReading {
    pub fn new(timestamp: i64, sensor_id: i32, temperature: i64, pressure: i64, vibration: i64) -> (r:
        SensorReading)
        ensures
            r == (SensorReading { timestamp, sensor_id, temperature, pressure, vibration }),
    {
        SensorReading { timestamp, sensor_id, temperature, pressure, vibration }
    }
}

/// Whether `r` lies in the inclusive window `[lo, hi]` and comes from one of
/// `ids`; an empty `ids` admits every sensor.
pub open spec fn keeps(r: SensorReading, lo: i64, hi: i64, ids: Seq<i32>) -> bool {
    &&& lo <= r.timestamp <= hi
    &&& (ids.len() == 0 || ids.contains(r.sensor_id))
}

/// The readings of `rows` that `keeps` admits, in the order of `rows`.
pub open spec fn selected(rows: Seq<SensorReading>, lo: i64, hi: i64, ids: Seq<i32>) -> Seq<
    SensorReading,
>
    decreases rows.len(),
{
    if rows.len() == 0 {
        Seq::empty()
    } else {
        let rest = selected(rows.drop_last(), lo, hi, ids);
        if keeps(rows.last(), lo, hi, ids) {
            rest.push(rows.last())
        } else {
            rest
        }
    }
}

/// No two readings of `rows` share a timestamp.
pub open spec fn unique_timestamps(rows: Seq<SensorReading>) -> bool {
    forall|i: int, j: int|
        0 <= i < j < rows.len() ==> #[trigger] rows[i].timestamp != #[trigger] rows[j].timestamp
}

/// The window of length `last` that ends at `now`, its start clamped at the
/// smallest timestamp.
pub open spec fn window_spec(now: i64, last: nat) -> (i64, i64) {
    if now - last < i64::MIN {
        (i64::MIN, now)
    } else {
        ((now - last) as i64, now)
    }
}

fn contains_id(ids: &Vec<i32>, id: i32) -> (r: bool)
    ensures
        r == ids@.contains(id),
{
    let mut i: usize = 0;
    while i < ids.len()
        invariant
            i <= ids@.len(),
            forall|j: int| 0 <= j < i ==> ids@[j] != id,
        decreases ids@.len() - i,
    {
        if ids[i] == id {
            return true;
        }
        i = i + 1;
    }
    false
}

/// The readings of `rows` whose timestamp lies in the inclusive window
/// `time_range` and whose sensor is one of `sensor_ids` (any sensor when
/// `sensor_ids` is empty), in the order of `rows`.
pub fn select_readings(rows: &Vec<SensorReading>, time_range: (i64, i64), sensor_ids: &Vec<i32>) -> (r:
    Vec<SensorReading>)
    ensures
        r@ == selected(rows@, time_range.0, time_range.1, sensor_ids@),
{
    let (lo, hi) = time_range;
    let mut out: Vec<SensorReading> = Vec::new();
    let mut i: usize = 0;
    while i < rows.len()
        invariant
            i <= rows@.len(),
            out@ == selected(rows@.take(i as int), lo, hi, sensor_ids@),
        decreases rows@.len() - i,
    {
        let row = rows[i];
        proof {
            assert(rows@.take(i + 1).drop_last() =~= rows@.take(i as int));
        }
        if lo <= row.timestamp && row.timestamp <= hi && (sensor_ids.len() == 0 || contains_id(
            sensor_ids,
            row.sensor_id,
        )) {
            out.push(row);
        }
        i = i + 1;
    }
    proof {
        assert(rows@.take(rows@.len() as int) =~= rows@);
    }
    out
}

/// The query window that ends at `now` and spans `last`.
pub fn window_ending_at(now: i64, last: UnsignedMillis) -> (r: (i64, i64))
    ensures
        r == window_spec(now, last.0 as nat),
{
    let start = now as i128 - last.0 as i128;
    if start < i64::MIN as i128 {
        (i64::MIN, now)
    } else {
        (start as i64, now)
    }
}

/// Every reading that `selected` yields is admitted by `keeps`.
pub proof fn lemma_selected_keeps(rows: Seq<SensorReading>, lo: i64, hi: i64, ids: Seq<i32>)
    ensures
        forall|i: int|
            0 <= i < selected(rows, lo, hi, ids).len() ==> keeps(
                #[trigger] selected(rows, lo, hi, ids)[i],
                lo,
                hi,
                ids,
            ),
    decreases rows.len(),
{
    if rows.len() > 0 {
        let rest = selected(rows.drop_last(), lo, hi, ids);
        lemma_selected_keeps(rows.drop_last(), lo, hi, ids);
        let all = selected(rows, lo, hi, ids);
        assert forall|i: int| 0 <= i < all.len() implies keeps(#[trigger] all[i], lo, hi, ids) by {
            if i < rest.len() {
                assert(all[i] == rest[i]);
            }
        }
    }
}

proof fn lemma_selected_none(rows: Seq<SensorReading>, lo: i64, hi: i64, ids: Seq<i32>)
    requires
        forall|i: int| 0 <= i < rows.len() ==> !keeps(#[trigger] rows[i], lo, hi, ids),
    ensures
        selected(rows, lo, hi, ids) == Seq::<SensorReading>::empty(),
    decreases rows.len(),
{
    if rows.len() > 0 {
        lemma_selected_none(rows.drop_last(), lo, hi, ids);
    }
}

/// Writing a reading and then asking for the window `[t, t]` of its timestamp
/// `t`, with no sensor filter, gives back exactly that reading, when
/// timestamps are unique among the stored rows.
pub proof fn lemma_point_window_round_trip(rows: Seq<SensorReading>, r: SensorReading)
    requires
        unique_timestamps(rows),
        rows.contains(r),
    ensures
        selected(rows, r.timestamp, r.timestamp, Seq::empty()) == seq![r],
    decreases rows.len(),
{
    let t = r.timestamp;
    let prefix = rows.drop_last();
    assert forall|i: int, j: int| 0 <= i < j < prefix.len() implies #[trigger] prefix[i].timestamp
        != #[trigger] prefix[j].timestamp by {
        assert(rows[i] == prefix[i] && rows[j] == prefix[j]);
    }
    if rows.last() == r {
        assert forall|i: int| 0 <= i < prefix.len() implies !keeps(
            #[trigger] prefix[i],
            t,
            t,
            Seq::empty(),
        ) by {
            assert(rows[i] == prefix[i]);
            assert(rows[rows.len() - 1] == r);
        }
        lemma_selected_none(prefix, t, t, Seq::empty());
        assert(Seq::<SensorReading>::empty().push(r) =~= seq![r]);
    } else {
        let k = choose|k: int| 0 <= k < rows.len() && rows[k] == r;
        assert(k < rows.len() - 1);
        assert(prefix[k] == r);
        assert(rows[rows.len() - 1].timestamp != rows[k].timestamp);
        lemma_point_window_round_trip(prefix, r);
    }
}

/// Of readings at `t - 1`, `t` and `t + 1`, the window `[t, t]` keeps only
/// the one at `t`: both bounds are inclusive and nothing beyond them enters.
pub proof fn lemma_window_bounds(a: SensorReading, b: SensorReading, c: SensorReading)
    requires
        a.timestamp == b.timestamp - 1,
        c.timestamp == b.timestamp + 1,
    ensures
        selected(seq![a, b, c], b.timestamp, b.timestamp, Seq::empty()) == seq![b],
{
    let t = b.timestamp;
    let none = Seq::<i32>::empty();
    assert(seq![a, b, c].drop_last() =~= seq![a, b]);
    assert(seq![a, b].drop_last() =~= seq![a]);
    assert(seq![a].drop_last() =~= Seq::<SensorReading>::empty());
    assert(selected(Seq::<SensorReading>::empty(), t, t, none) == Seq::<SensorReading>::empty());
    assert(selected(seq![a], t, t, none) == Seq::<SensorReading>::empty());
    assert(Seq::<SensorReading>::empty().push(b) =~= seq![b]);
    assert(selected(seq![a, b], t, t, none) == seq![b]);
    assert(selected(seq![a, b, c], t, t, none) == seq![b]);
}

/// Readings of sensors 1 and 2 inside one window: filtering by `[1]` keeps the
/// first alone, and an empty filter keeps both.
pub proof fn lemma_sensor_filter(a: SensorReading, b: SensorReading, lo: i64, hi: i64)
    requires
        a.sensor_id == 1,
        b.sensor_id == 2,
        lo <= a.timestamp <= hi,
        lo <= b.timestamp <= hi,
    ensures
        selected(seq![a, b], lo, hi, seq![1i32]) == seq![a],
        selected(seq![a, b], lo, hi, Seq::empty()) == seq![a, b],
{
    let one = seq![1i32];
    let none = Seq::<i32>::empty();
    let empty = Seq::<SensorReading>::empty();
    assert(seq![a, b].drop_last() =~= seq![a]);
    assert(seq![a].drop_last() =~= empty);
    assert(one[0] == 1i32);
    assert(one.contains(1i32));
    assert(!one.contains(2i32));
    assert(empty.push(a) =~= seq![a]);
    assert(seq![a].push(b) =~= seq![a, b]);
    assert(selected(empty, lo, hi, one) == empty);
    assert(selected(seq![a], lo, hi, one) == seq![a]);
    assert(selected(seq![a, b], lo, hi, one) == seq![a]);
    assert(selected(empty, lo, hi, none) == empty);
    assert(selected(seq![a], lo, hi, none) == seq![a]);
    assert(selected(seq![a, b], lo, hi, none) == seq![a, b]);
}

} // verus!

//! The series of the line charts: point positions, the points of a year,
//! and the splitting of a series at missing readings.

use vstd::prelude::*;
use crate::period::Period;

verus! {

broadcast use vstd::seq_lib::group_seq_properties;

/// A chart point: horizontal position and temperature.
pub type Point = (i32, i32);

/// Readings above 200 degrees stand for missing data.
pub open spec fn is_missing(p: Point) -> bool {
    p.1 > 200
}

/// A point that is drawn.
pub open spec fn is_reading(p: Point) -> bool {
    p.1 <= 200
}

/// The segments finished so far and the segment under way, after scanning `data`.
pub open spec fn split_state(data: Seq<Point>) -> (Seq<Seq<Point>>, Seq<Point>)
    decreases data.len(),
{
    if data.len() == 0 {
        (Seq::empty(), Seq::empty())
    } else {
        let prev = split_state(data.drop_last());
        let p = data.last();
        if is_missing(p) {
            if prev.1.len() > 0 {
                (prev.0.push(prev.1), Seq::empty())
            } else {
                prev
            }
        } else {
            (prev.0, prev.1.push(p))
        }
    }
}

/// The runs of consecutive readings of `data`, in order, cut at every missing reading.
pub open spec fn segments_of(data: Seq<Point>) -> Seq<Seq<Point>> {
    let st = split_state(data);
    if st.1.len() > 0 {
        st.0.push(st.1)
    } else {
        st.0
    }
}

/// The views of a list of segments.
pub open spec fn segment_views(v: Seq<Vec<Point>>) -> Seq<Seq<Point>> {
    v.map_values(|s: Vec<Point>| s@)
}

/// Splits a series into the segments that a line is drawn through: every
/// reading above 200 ends the segment under way and is itself left out.
pub fn split_segments(data: Vec<Point>) -> (segments: Vec<Vec<Point>>)
    ensures
        segment_views(segments@) == segments_of(data@),
{
    let mut segments: Vec<Vec<Point>> = Vec::new();
    let mut current: Vec<Point> = Vec::new();
    let n = data.len();
    let mut i: usize = 0;
    while i < n
        invariant
            n == data@.len(),
            i <= n,
            segment_views(segments@) == split_state(data@.take(i as int)).0,
            current@ == split_state(data@.take(i as int)).1,
        decreases n - i,
    {
        let point = data[i];
        let ghost pre = data@.take(i as int);
        assert(data@.take(i + 1).drop_last() =~= pre);
        assert(data@.take(i + 1).last() == point);
        let (_x, y) = point;
        if y > 200 {
            if current.len() > 0 {
                let ghost segs_before = segments@;
                segments.push(current);
                current = Vec::new();
                assert(segment_views(segments@) =~= segment_views(segs_before).push(
                    split_state(pre).1,
                ));
            }
        } else {
            current.push(point);
        }
        i = i + 1;
    }
    assert(data@.take(n as int) =~= data@);
    if current.len() > 0 {
        let ghost segs_before = segments@;
        segments.push(current);
        assert(segment_views(segments@) =~= segment_views(segs_before).push(
            split_state(data@).1,
        ));
    }
    segments
}

/// Number of runs of readings in `data`: positions holding a reading that
/// start the series or follow a missing reading.
pub open spec fn run_count(data: Seq<Point>) -> nat
    decreases data.len(),
{
    if data.len() == 0 {
        0
    } else {
        let starts = is_reading(data.last()) && (data.len() == 1 || is_missing(
            data[data.len() - 2],
        ));
        run_count(data.drop_last()) + if starts {
            1nat
        } else {
            0nat
        }
    }
}

proof fn lemma_split_state(data: Seq<Point>)
    ensures
        split_state(data).0.flatten() + split_state(data).1 == data.filter(
            |p: Point| is_reading(p),
        ),
        forall|k: int|
            0 <= k < split_state(data).0.len() ==> #[trigger] split_state(data).0[k].len() > 0,
        forall|k: int, j: int|
            0 <= k < split_state(data).0.len() && 0 <= j < split_state(data).0[k].len()
                ==> is_reading(#[trigger] split_state(data).0[k][j]),
        forall|j: int|
            0 <= j < split_state(data).1.len() ==> is_reading(#[trigger] split_state(data).1[j]),
        split_state(data).1.len() > 0 <==> (data.len() > 0 && is_reading(data.last())),
        split_state(data).0.len() + (if split_state(data).1.len() > 0 {
            1int
        } else {
            0int
        }) == run_count(data),
    decreases data.len(),
{
    let pred = |p: Point| is_reading(p);
    if data.len() == 0 {
        reveal(Seq::filter);
        assert(split_state(data).0.flatten() =~= Seq::<Point>::empty());
    } else {
        let rest = data.drop_last();
        lemma_split_state(rest);
        let p = data.last();
        assert(rest.push(p) =~= data);
        rest.lemma_filter_push(p, pred);
        let prev = split_state(rest);
        if is_missing(p) {
            if prev.1.len() > 0 {
                prev.0.lemma_flatten_push(prev.1);
                assert(prev.0.push(prev.1).flatten() + Seq::<Point>::empty() =~= prev.0.flatten()
                    + prev.1);
            }
        } else {
            assert(prev.0.flatten() + prev.1.push(p) =~= (prev.0.flatten() + prev.1).push(p));
            if data.len() > 1 {
                assert(rest.last() == data[data.len() - 2]);
            }
        }
    }
}

/// The segments hold exactly the readings of the series, in order: joined
/// together they are the series without its missing readings.
pub proof fn law_segments_keep_every_reading(data: Seq<Point>)
    ensures
        segments_of(data).flatten() == data.filter(|p: Point| is_reading(p)),
{
    lemma_split_state(data);
    let st = split_state(data);
    if st.1.len() > 0 {
        st.0.lemma_flatten_push(st.1);
    } else {
        assert(st.0.flatten() + st.1 =~= st.0.flatten());
    }
}

/// No segment is empty and no segment holds a missing reading.
pub proof fn law_segments_are_nonempty_readings(data: Seq<Point>)
    ensures
        forall|k: int| 0 <= k < segments_of(data).len() ==> #[trigger] segments_of(data)[k].len() > 0,
        forall|k: int, j: int|
            0 <= k < segments_of(data).len() && 0 <= j < segments_of(data)[k].len() ==> is_reading(
                #[trigger] segments_of(data)[k][j],
            ),
{
    lemma_split_state(data);
}

/// There is one segment for every run of consecutive readings.
pub proof fn law_one_segment_per_run(data: Seq<Point>)
    ensures
        segments_of(data).len() == run_count(data),
{
    lemma_split_state(data);
}

proof fn lemma_split_state_after_cut(pre: Seq<Point>, d2: Seq<Point>)
    requires
        split_state(pre).1.len() == 0,
    ensures
        split_state(pre + d2) == (split_state(pre).0 + split_state(d2).0, split_state(d2).1),
    decreases d2.len(),
{
    if d2.len() == 0 {
        assert(pre + d2 =~= pre);
        assert(split_state(pre).0 + Seq::<Seq<Point>>::empty() =~= split_state(pre).0);
    } else {
        let rest = d2.drop_last();
        lemma_split_state_after_cut(pre, rest);
        assert((pre + d2).drop_last() =~= pre + rest);
        assert((pre + d2).last() == d2.last());
        let a = split_state(pre).0;
        let b = split_state(rest);
        if is_missing(d2.last()) {
            if b.1.len() > 0 {
                assert((a + b.0).push(b.1) =~= a + b.0.push(b.1));
            }
        }
    }
}

/// A missing reading cuts a series in two: the segments of the whole are
/// those of the part before it followed by those of the part after it.
pub proof fn law_missing_reading_splits_the_segments(d1: Seq<Point>, s: Point, d2: Seq<Point>)
    requires
        is_missing(s),
    ensures
        segments_of(d1 + seq![s] + d2) == segments_of(d1) + segments_of(d2),
        segments_of(seq![s]) == Seq::<Seq<Point>>::empty(),
{
    let pre = d1.push(s);
    assert(pre.drop_last() =~= d1);
    assert(d1 + seq![s] =~= pre);
    assert(split_state(pre).0 == segments_of(d1));
    assert(split_state(pre).1.len() == 0);
    lemma_split_state_after_cut(pre, d2);
    let b = split_state(d2);
    if b.1.len() > 0 {
        assert((segments_of(d1) + b.0).push(b.1) =~= segments_of(d1) + b.0.push(b.1));
    }
    let one = seq![s];
    assert(one.drop_last() =~= Seq::<Point>::empty());
    assert(one.last() == s);
    assert(split_state(Seq::<Point>::empty()) == (Seq::<Seq<Point>>::empty(), Seq::<Point>::empty()));
    assert(split_state(one) == (Seq::<Seq<Point>>::empty(), Seq::<Point>::empty()));
}

/// The horizontal positions of the points of a period, on the 0..624 axis.
pub open spec fn spec_positions(p: Period) -> Seq<i32> {
    match p {
        Period::Month => Seq::new(12, |k: int| (26 + 52 * k) as i32),
        Period::Fort => Seq::new(26, |k: int| (14 + 24 * k) as i32),
        Period::Week => Seq::new(52, |k: int| if k == 0 { 4i32 } else { (2 + 12 * k) as i32 }),
    }
}

/// The horizontal positions of the points of a period.
pub fn positions(p: Period) -> (r: Vec<i32>)
    ensures
        r@ == spec_positions(p),
{
    let mut r: Vec<i32> = Vec::new();
    match p {
        Period::Month => {
            let mut k: i32 = 0;
            while k < 12
                invariant
                    0 <= k <= 12,
                    r@ == Seq::new(k as nat, |j: int| (26 + 52 * j) as i32),
                decreases 12 - k,
            {
                r.push(26 + 52 * k);
                k = k + 1;
                assert(r@ =~= Seq::new(k as nat, |j: int| (26 + 52 * j) as i32));
            }
        },
        Period::Fort => {
            let mut k: i32 = 0;
            while k < 26
                invariant
                    0 <= k <= 26,
                    r@ == Seq::new(k as nat, |j: int| (14 + 24 * j) as i32),
                decreases 26 - k,
            {
                r.push(14 + 24 * k);
                k = k + 1;
                assert(r@ =~= Seq::new(k as nat, |j: int| (14 + 24 * j) as i32));
            }
        },
        Period::Week => {
            r.push(4);
            let mut k: i32 = 1;
            while k < 52
                invariant
                    1 <= k <= 52,
                    r@ == Seq::new(
                        k as nat,
                        |j: int|
                            if j == 0 {
                                4i32
                            } else {
                                (2 + 12 * j) as i32
                            },
                    ),
                decreases 52 - k,
            {
                r.push(2 + 12 * k);
                k = k + 1;
                assert(r@ =~= Seq::new(
                    k as nat,
                    |j: int|
                        if j == 0 {
                            4i32
                        } else {
                            (2 + 12 * j) as i32
                        },
                ));
            }
        },
    }
    r
}

/// A reading, or 0 where the column could not be read.
pub open spec fn or_zero(v: Option<i32>) -> i32 {
    match v {
        Some(t) => t,
        None => 0,
    }
}

/// The points of a series: each position paired with the reading in the
/// same place, 0 standing for a reading that could not be read; as many
/// points as the shorter of the two lists.
pub open spec fn spec_series_points(pos: Seq<i32>, temps: Seq<Option<i32>>) -> Seq<Point> {
    let n = if pos.len() <= temps.len() {
        pos.len()
    } else {
        temps.len()
    };
    Seq::new(n, |k: int| (pos[k], or_zero(temps[k])))
}

/// Pairs positions with readings.
pub fn series_points(pos: &Vec<i32>, temps: &Vec<Option<i32>>) -> (r: Vec<Point>)
    ensures
        r@ == spec_series_points(pos@, temps@),
{
    let n = if pos.len() <= temps.len() {
        pos.len()
    } else {
        temps.len()
    };
    let mut r: Vec<Point> = Vec::new();
    let mut k: usize = 0;
    while k < n
        invariant
            n <= pos@.len(),
            n <= temps@.len(),
            n == (if pos@.len() <= temps@.len() {
                pos@.len()
            } else {
                temps@.len()
            }),
            k <= n,
            r@ == Seq::new(k as nat, |j: int| (pos@[j], or_zero(temps@[j]))),
        decreases n - k,
    {
        let t = match temps[k] {
            Some(t) => t,
            None => 0,
        };
        r.push((pos[k], t));
        k = k + 1;
        assert(r@ =~= Seq::new(k as nat, |j: int| (pos@[j], or_zero(temps@[j]))));
    }
    r
}

/// The index of the month label shown under axis position `x`: one label
/// for every 52 positions, the last one from 624 on.
pub open spec fn spec_label_index(x: int) -> int {
    if x < 0 {
        0
    } else if x / 52 <= 12 {
        x / 52
    } else {
        12
    }
}

/// The label index of an axis position; positions at or below -52 have none.
pub fn label_index(x: i32) -> (r: usize)
    requires
        x > -52,
    ensures
        r == spec_label_index(x as int),
        r <= 12,
{
    if x < 0 {
        0
    } else {
        let q = x / 52;
        if q <= 12 {
            q as usize
        } else {
            12
        }
    }
}

} // verus!

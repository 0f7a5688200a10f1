//! Runs of equal temperatures recorded close together, marked on the
//! date-temperature charts as one larger dot.

use vstd::prelude::*;
use crate::calendar::{
    chrono_parse_ymd, day_number, days_between, lemma_day_number_any, lemma_day_number_bounds, parse_date,
};
use crate::text::{owned, str_equal};

verus! {

/// One reading of a date-temperature chart: the date text and the temperature.
#[derive(Debug)]
pub struct DateTemp {
    pub date: String,
    pub temp: i32,
}

/// A marked run: the date of its first reading, its temperature and how many readings it holds.
#[derive(Debug)]
pub struct DupEntry {
    pub date: String,
    pub temp: i32,
    pub count: i32,
}

/// The date that stands for "no run under way".
pub open spec fn no_run_date() -> Seq<char> {
    "1800-01-01"@
}

/// The readings as plain values.
pub open spec fn reading_views(rows: Seq<DateTemp>) -> Seq<(Seq<char>, i32)> {
    rows.map_values(|r: DateTemp| (r.date@, r.temp))
}

/// Days between the dates that two texts hold, whichever comes first.
pub open spec fn date_gap(a: Seq<char>, b: Seq<char>) -> int {
    let d = day_number(chrono_parse_ymd(a).unwrap()) - day_number(chrono_parse_ymd(b).unwrap());
    if d < 0 {
        -d
    } else {
        d
    }
}

/// The days between the dates written in `a` and `b`, both `%Y-%m-%d`.
pub fn dates_diff_in_days(a: &str, b: &str) -> (r: i64)
    requires
        chrono_parse_ymd(a@) is Some,
        chrono_parse_ymd(b@) is Some,
    ensures
        r == date_gap(a@, b@),
{
    let a_date = parse_date(a).unwrap();
    let b_date = parse_date(b).unwrap();
    proof {
        lemma_day_number_bounds(a_date);
        lemma_day_number_bounds(b_date);
    }
    let d = days_between(a_date, b_date);
    if d < 0 {
        -d
    } else {
        d
    }
}

/// The gap between two dates does not depend on their order, and a date is
/// no days from itself.
pub proof fn law_date_gap_symmetric(a: Seq<char>, b: Seq<char>)
    ensures
        date_gap(a, b) == date_gap(b, a),
        date_gap(a, a) == 0,
        date_gap(a, b) >= 0,
{
}

/// The scan's state: the date of the run under way, its length so far, and the runs marked.
pub struct DupState {
    pub run_date: Seq<char>,
    pub count: int,
    pub marks: Map<Seq<char>, (i32, i32)>,
}

pub open spec fn dup_start() -> DupState {
    DupState { run_date: no_run_date(), count: 1, marks: Map::empty() }
}

/// One step of the scan, comparing reading `i` with reading `i + 1`, whose
/// dates are `gaps[i]` days apart: equal temperatures less than 45 days
/// apart extend the run (marked under the date where it began); equal
/// temperatures further apart end it, leaving what was marked; a different
/// temperature ends it, marking it once more if it holds more than one
/// reading.
pub open spec fn dup_step(st: DupState, rows: Seq<(Seq<char>, i32)>, gaps: Seq<i64>, i: int) -> DupState {
    let cur = rows[i];
    let next = rows[i + 1];
    if cur.1 == next.1 {
        if gaps[i] < 45 {
            let count = st.count + 1;
            let run_date = if st.run_date == no_run_date() {
                cur.0
            } else {
                st.run_date
            };
            DupState { run_date, count, marks: st.marks.insert(run_date, (cur.1, count as i32)) }
        } else {
            DupState { run_date: no_run_date(), count: 1, marks: st.marks }
        }
    } else if st.count > 1 {
        DupState {
            run_date: no_run_date(),
            count: 1,
            marks: st.marks.insert(st.run_date, (cur.1, st.count as i32)),
        }
    } else {
        st
    }
}

/// The state after comparing the first `k` neighbouring pairs.
pub open spec fn dup_scan(rows: Seq<(Seq<char>, i32)>, gaps: Seq<i64>, k: int) -> DupState
    decreases k,
{
    if k <= 0 {
        dup_start()
    } else {
        dup_step(dup_scan(rows, gaps, k - 1), rows, gaps, k - 1)
    }
}

/// The runs that the chart marks, by the date where each began, for readings
/// whose neighbours are `gaps` days apart.
pub open spec fn dup_marks_with(rows: Seq<(Seq<char>, i32)>, gaps: Seq<i64>) -> Map<
    Seq<char>,
    (i32, i32),
> {
    dup_scan(rows, gaps, rows.len() - 1).marks
}

/// The days between each reading and the next, where their temperatures
/// are equal (0 elsewhere, where the gap is not looked at).
pub open spec fn pair_gaps(rows: Seq<(Seq<char>, i32)>) -> Seq<i64> {
    Seq::new(
        (rows.len() - 1) as nat,
        |i: int|
            if rows[i].1 == rows[i + 1].1 {
                date_gap(rows[i].0, rows[i + 1].0) as i64
            } else {
                0i64
            },
    )
}

/// The runs that the chart marks, by the date where each began.
pub open spec fn dup_marks(rows: Seq<(Seq<char>, i32)>) -> Map<Seq<char>, (i32, i32)> {
    dup_marks_with(rows, pair_gaps(rows))
}

/// The date of some reading among the first `n`.
pub open spec fn is_reading_date(rows: Seq<(Seq<char>, i32)>, n: int, d: Seq<char>) -> bool {
    exists|i: int| 0 <= i < n && (#[trigger] rows[i]).0 == d
}

/// The temperature of some reading among the first `n`.
pub open spec fn is_reading_temp(rows: Seq<(Seq<char>, i32)>, n: int, t: i32) -> bool {
    exists|i: int| 0 <= i < n && (#[trigger] rows[i]).1 == t
}

proof fn lemma_dup_scan(rows: Seq<(Seq<char>, i32)>, gaps: Seq<i64>, k: int)
    requires
        0 <= k < rows.len(),
        rows.len() < i32::MAX,
    ensures
        1 <= dup_scan(rows, gaps, k).count <= k + 1,
        dup_scan(rows, gaps, k).count == 1 ==> dup_scan(rows, gaps, k).run_date == no_run_date(),
        dup_scan(rows, gaps, k).count > 1 ==> is_reading_date(rows, k + 1, dup_scan(rows, gaps, k).run_date),
        forall|d: Seq<char>|
            #[trigger] dup_scan(rows, gaps, k).marks.dom().contains(d) ==> {
                &&& is_reading_date(rows, k + 1, d)
                &&& is_reading_temp(rows, k + 1, dup_scan(rows, gaps, k).marks[d].0)
                &&& dup_scan(rows, gaps, k).marks[d].1 >= 2
            },
    decreases k,
{
    if k > 0 {
        lemma_dup_scan(rows, gaps, k - 1);
        let st = dup_scan(rows, gaps, k - 1);
        let i = k - 1;
        let cur = rows[i];
        assert(is_reading_temp(rows, k + 1, cur.1));
        assert(is_reading_date(rows, k + 1, cur.0));
        assert forall|d: Seq<char>| is_reading_date(rows, k, d) implies is_reading_date(
            rows,
            k + 1,
            d,
        ) by {
            let j = choose|j: int| 0 <= j < k && (#[trigger] rows[j]).0 == d;
            assert(rows[j].0 == d);
        }
        assert forall|t: i32| is_reading_temp(rows, k, t) implies is_reading_temp(rows, k + 1, t) by {
            let j = choose|j: int| 0 <= j < k && (#[trigger] rows[j]).1 == t;
            assert(rows[j].1 == t);
        }
    }
}

/// Every run the chart marks is made of readings of the chart: it is marked
/// under the date of one of them, with the temperature of one of them, and
/// holds at least two readings.
pub proof fn law_marks_come_from_readings(rows: Seq<(Seq<char>, i32)>, gaps: Seq<i64>)
    requires
        0 < rows.len() < i32::MAX,
    ensures
        forall|d: Seq<char>|
            #[trigger] dup_marks_with(rows, gaps).dom().contains(d) ==> {
                &&& is_reading_date(rows, rows.len() as int, d)
                &&& is_reading_temp(rows, rows.len() as int, dup_marks_with(rows, gaps)[d].0)
                &&& dup_marks_with(rows, gaps)[d].1 >= 2
            },
{
    let k = rows.len() - 1;
    lemma_dup_scan(rows, gaps, k);
}


/// Readings `i` and `i + 1` belong to one run: equal temperatures, fewer
/// than 45 days apart.
pub open spec fn linked(rows: Seq<(Seq<char>, i32)>, gaps: Seq<i64>, i: int) -> bool {
    0 <= i < rows.len() - 1 && rows[i].1 == rows[i + 1].1 && gaps[i] < 45
}

/// Reading `s` begins a run of at least two readings that no earlier reading belongs to.
pub open spec fn starts_run(rows: Seq<(Seq<char>, i32)>, gaps: Seq<i64>, s: int) -> bool {
    linked(rows, gaps, s) && (s == 0 || !linked(rows, gaps, s - 1))
}

/// The last reading of the run that goes on from reading `s`.
pub open spec fn run_end(rows: Seq<(Seq<char>, i32)>, gaps: Seq<i64>, s: int) -> int
    decreases rows.len() - s,
{
    if s < 0 || s >= rows.len() - 1 || !linked(rows, gaps, s) {
        s
    } else {
        run_end(rows, gaps, s + 1)
    }
}

/// The first reading of the run that reading `k - 1` belongs to with reading `k`.
pub open spec fn cur_start(rows: Seq<(Seq<char>, i32)>, gaps: Seq<i64>, k: int) -> int
    decreases k,
{
    if k <= 1 || !linked(rows, gaps, k - 2) {
        k - 1
    } else {
        cur_start(rows, gaps, k - 1)
    }
}

pub open spec fn min_int(a: int, b: int) -> int {
    if a <= b {
        a
    } else {
        b
    }
}

proof fn lemma_run_end(rows: Seq<(Seq<char>, i32)>, gaps: Seq<i64>, s: int)
    requires
        0 <= s <= rows.len() - 1,
    ensures
        s <= run_end(rows, gaps, s) <= rows.len() - 1,
        forall|j: int| s <= j < run_end(rows, gaps, s) ==> #[trigger] linked(rows, gaps, j),
        run_end(rows, gaps, s) == rows.len() - 1 || !linked(rows, gaps, run_end(rows, gaps, s)),
    decreases rows.len() - s,
{
    if s < rows.len() - 1 && linked(rows, gaps, s) {
        lemma_run_end(rows, gaps, s + 1);
    }
}

proof fn lemma_run_end_reaches(rows: Seq<(Seq<char>, i32)>, gaps: Seq<i64>, s: int, m: int)
    requires
        0 <= s <= m <= rows.len() - 1,
        forall|j: int| s <= j < m ==> #[trigger] linked(rows, gaps, j),
    ensures
        run_end(rows, gaps, s) >= m,
        (m == rows.len() - 1 || !linked(rows, gaps, m)) ==> run_end(rows, gaps, s) == m,
    decreases m - s,
{
    lemma_run_end(rows, gaps, s);
    if s < m {
        assert(linked(rows, gaps, s));
        lemma_run_end_reaches(rows, gaps, s + 1, m);
        assert(run_end(rows, gaps, s) == run_end(rows, gaps, s + 1));
    }
}

proof fn lemma_cur_start(rows: Seq<(Seq<char>, i32)>, gaps: Seq<i64>, k: int)
    requires
        0 < k <= rows.len() - 1,
        linked(rows, gaps, k - 1),
    ensures
        0 <= cur_start(rows, gaps, k) <= k - 1,
        starts_run(rows, gaps, cur_start(rows, gaps, k)),
        forall|j: int| cur_start(rows, gaps, k) <= j < k ==> #[trigger] linked(rows, gaps, j),
        rows[cur_start(rows, gaps, k)].1 == rows[k].1,
    decreases k,
{
    if k > 1 && linked(rows, gaps, k - 2) {
        lemma_cur_start(rows, gaps, k - 1);
    }
}

/// No reading is dated like the "no run under way" marker.
pub open spec fn no_marker_dates(rows: Seq<(Seq<char>, i32)>) -> bool {
    forall|i: int| 0 <= i < rows.len() ==> (#[trigger] rows[i]).0 != no_run_date()
}

/// `s` begins a run and no later run begins on a reading of the same date.
pub open spec fn last_run_of_its_date(rows: Seq<(Seq<char>, i32)>, gaps: Seq<i64>, s: int, k: int) -> bool {
    &&& 0 <= s < k
    &&& starts_run(rows, gaps, s)
    &&& forall|s2: int| s < s2 < k && #[trigger] starts_run(rows, gaps, s2) ==> rows[s2].0 != rows[s].0
}

proof fn lemma_runs_prefix(rows: Seq<(Seq<char>, i32)>, gaps: Seq<i64>, k: int)
    requires
        0 < rows.len() < i32::MAX,
        gaps.len() == rows.len() - 1,
        no_marker_dates(rows),
        0 <= k <= rows.len() - 1,
    ensures
        (k > 0 && linked(rows, gaps, k - 1)) ==> {
            &&& dup_scan(rows, gaps, k).count == k - cur_start(rows, gaps, k) + 1
            &&& dup_scan(rows, gaps, k).run_date == rows[cur_start(rows, gaps, k)].0
        },
        !(k > 0 && linked(rows, gaps, k - 1)) ==> {
            &&& dup_scan(rows, gaps, k).count == 1
            &&& dup_scan(rows, gaps, k).run_date == no_run_date()
        },
        forall|d: Seq<char>|
            #[trigger] dup_scan(rows, gaps, k).marks.dom().contains(d) <==> exists|s: int|
                0 <= s < k && #[trigger] starts_run(rows, gaps, s) && rows[s].0 == d,
        forall|s: int|
            #[trigger] last_run_of_its_date(rows, gaps, s, k) ==> dup_scan(rows, gaps, k).marks[rows[s].0]
                == (rows[s].1, (min_int(run_end(rows, gaps, s), k) - s + 1) as i32),
    decreases k,
{
    if k == 0 {
        return;
    }
    let i = k - 1;
    lemma_runs_prefix(rows, gaps, i);
    let st = dup_scan(rows, gaps, i);
    let st2 = dup_scan(rows, gaps, k);
    assert(st2 == dup_step(st, rows, gaps, i));
    let p = i > 0 && linked(rows, gaps, i - 1);
    let l = linked(rows, gaps, i);
    if p {
        lemma_cur_start(rows, gaps, i);
    }
    // Every run that began before `i` and is still under way began at the current start.
    assert forall|s: int| 0 <= s < i && #[trigger] starts_run(rows, gaps, s) implies run_end(rows, gaps, s)
        < i || (p && s == cur_start(rows, gaps, i)) by {
        lemma_run_end(rows, gaps, s);
        if run_end(rows, gaps, s) >= i {
            assert(linked(rows, gaps, i - 1));
            if s != cur_start(rows, gaps, i) {
                let cs = cur_start(rows, gaps, i);
                if s < cs {
                    assert(linked(rows, gaps, cs - 1));
                } else {
                    assert(linked(rows, gaps, s - 1));
                }
            }
        }
    }
    if l && !p {
        assert(starts_run(rows, gaps, i));
        assert(cur_start(rows, gaps, k) == i);
        lemma_run_end_reaches(rows, gaps, i, k);
        assert(rows[i].0 != no_run_date());
        let m1 = st.marks;
        let m2 = st2.marks;
        assert(m2 == m1.insert(rows[i].0, (rows[i].1, 2i32)));
        assert forall|d: Seq<char>| #[trigger] m2.dom().contains(d) <==> exists|s: int|
            0 <= s < k && #[trigger] starts_run(rows, gaps, s) && rows[s].0 == d by {
            if m2.dom().contains(d) && d != rows[i].0 {
                assert(m1.dom().contains(d));
                let s = choose|s: int| 0 <= s < i && #[trigger] starts_run(rows, gaps, s) && rows[s].0 == d;
                assert(0 <= s < k && starts_run(rows, gaps, s) && rows[s].0 == d);
            }
            if exists|s: int| 0 <= s < k && #[trigger] starts_run(rows, gaps, s) && rows[s].0 == d {
                let s = choose|s: int| 0 <= s < k && #[trigger] starts_run(rows, gaps, s) && rows[s].0 == d;
                if s < i {
                    assert(m1.dom().contains(d));
                }
            }
        }
        assert forall|s: int| #[trigger] last_run_of_its_date(rows, gaps, s, k) implies m2[rows[s].0] == (
        rows[s].1, (min_int(run_end(rows, gaps, s), k) - s + 1) as i32) by {
            if s < i {
                assert(rows[i].0 != rows[s].0);
                assert(last_run_of_its_date(rows, gaps, s, i));
                lemma_run_end(rows, gaps, s);
            }
        }
    } else if l && p {
        let cs = cur_start(rows, gaps, i);
        assert(cur_start(rows, gaps, k) == cs);
        lemma_run_end_reaches(rows, gaps, cs, k);
        assert(rows[cs].0 != no_run_date());
        assert(!starts_run(rows, gaps, i));
        let m1 = st.marks;
        let m2 = st2.marks;
        assert(m2 == m1.insert(rows[cs].0, (rows[i].1, (k - cs + 1) as i32)));
        assert(m1.dom().contains(rows[cs].0)) by {
            assert(0 <= cs < i && starts_run(rows, gaps, cs) && rows[cs].0 == rows[cs].0);
        }
        assert forall|d: Seq<char>| #[trigger] m2.dom().contains(d) <==> exists|s: int|
            0 <= s < k && #[trigger] starts_run(rows, gaps, s) && rows[s].0 == d by {
            if m2.dom().contains(d) {
                assert(m1.dom().contains(d));
                let s = choose|s: int| 0 <= s < i && #[trigger] starts_run(rows, gaps, s) && rows[s].0 == d;
                assert(0 <= s < k && starts_run(rows, gaps, s) && rows[s].0 == d);
            }
            if exists|s: int| 0 <= s < k && #[trigger] starts_run(rows, gaps, s) && rows[s].0 == d {
                let s = choose|s: int| 0 <= s < k && #[trigger] starts_run(rows, gaps, s) && rows[s].0 == d;
                assert(s != i);
                assert(m1.dom().contains(d));
            }
        }
        assert forall|s: int| #[trigger] last_run_of_its_date(rows, gaps, s, k) implies m2[rows[s].0] == (
        rows[s].1, (min_int(run_end(rows, gaps, s), k) - s + 1) as i32) by {
            assert(s != i);
            assert(last_run_of_its_date(rows, gaps, s, i));
            lemma_run_end(rows, gaps, s);
            if s != cs {
                assert(s < cs) by {
                    if s > cs {
                        assert(linked(rows, gaps, s - 1));
                    }
                }
                assert(rows[cs].0 != rows[s].0);
            }
        }
    } else {
        let m1 = st.marks;
        let m2 = st2.marks;
        assert(!starts_run(rows, gaps, i));
        if rows[i].1 != rows[i + 1].1 && st.count > 1 {
            let cs = cur_start(rows, gaps, i);
            lemma_run_end_reaches(rows, gaps, cs, i);
            assert(last_run_of_its_date(rows, gaps, cs, i)) by {
                assert forall|s2: int| cs < s2 < i && #[trigger] starts_run(rows, gaps, s2) implies rows[s2].0
                    != rows[cs].0 by {
                    assert(linked(rows, gaps, s2 - 1));
                }
            }
            assert(m1.dom().contains(rows[cs].0)) by {
                assert(0 <= cs < i && starts_run(rows, gaps, cs) && rows[cs].0 == rows[cs].0);
            }
            assert(m2 == m1.insert(rows[cs].0, (rows[i].1, st.count as i32)));
            assert(m2 =~= m1);
        } else {
            assert(m2 == m1);
        }
        assert forall|d: Seq<char>| #[trigger] m2.dom().contains(d) <==> exists|s: int|
            0 <= s < k && #[trigger] starts_run(rows, gaps, s) && rows[s].0 == d by {
            if m2.dom().contains(d) {
                let s = choose|s: int| 0 <= s < i && #[trigger] starts_run(rows, gaps, s) && rows[s].0 == d;
                assert(0 <= s < k && starts_run(rows, gaps, s) && rows[s].0 == d);
            }
            if exists|s: int| 0 <= s < k && #[trigger] starts_run(rows, gaps, s) && rows[s].0 == d {
                let s = choose|s: int| 0 <= s < k && #[trigger] starts_run(rows, gaps, s) && rows[s].0 == d;
                assert(s != i);
                assert(0 <= s < i && starts_run(rows, gaps, s) && rows[s].0 == d);
            }
        }
        assert forall|s: int| #[trigger] last_run_of_its_date(rows, gaps, s, k) implies m2[rows[s].0] == (
        rows[s].1, (min_int(run_end(rows, gaps, s), k) - s + 1) as i32) by {
            assert(s != i);
            assert(last_run_of_its_date(rows, gaps, s, i));
            lemma_run_end(rows, gaps, s);
            if run_end(rows, gaps, s) >= k {
                assert(linked(rows, gaps, i));
            }
        }
    }
}

/// The runs marked on a chart, stated directly: where no reading carries
/// the "no run" marker date 1800-01-01, a date is marked exactly when a
/// run of two or more readings (neighbours with equal temperatures fewer
/// than 45 days apart, as long as it goes) begins on a reading of that
/// date; the mark holds the run's temperature and length, those of the
/// last such run where several begin on readings of the same date.
pub proof fn law_marks_are_the_maximal_runs(rows: Seq<(Seq<char>, i32)>, gaps: Seq<i64>)
    requires
        0 < rows.len() < i32::MAX,
        gaps.len() == rows.len() - 1,
        no_marker_dates(rows),
    ensures
        forall|d: Seq<char>|
            #[trigger] dup_marks_with(rows, gaps).dom().contains(d) <==> exists|s: int|
                #[trigger] starts_run(rows, gaps, s) && rows[s].0 == d,
        forall|s: int|
            #[trigger] last_run_of_its_date(rows, gaps, s, rows.len() as int) ==> dup_marks_with(
                rows,
                gaps,
            )[rows[s].0] == (rows[s].1, (run_end(rows, gaps, s) - s + 1) as i32),
{
    let n = rows.len() as int;
    lemma_runs_prefix(rows, gaps, n - 1);
    let m = dup_marks_with(rows, gaps);
    assert forall|d: Seq<char>| #[trigger] m.dom().contains(d) <==> exists|s: int|
        #[trigger] starts_run(rows, gaps, s) && rows[s].0 == d by {
        if exists|s: int| #[trigger] starts_run(rows, gaps, s) && rows[s].0 == d {
            let s = choose|s: int| #[trigger] starts_run(rows, gaps, s) && rows[s].0 == d;
            assert(0 <= s < n - 1 && starts_run(rows, gaps, s) && rows[s].0 == d);
        }
    }
    assert forall|s: int| #[trigger] last_run_of_its_date(rows, gaps, s, n) implies m[rows[s].0] == (
    rows[s].1, (run_end(rows, gaps, s) - s + 1) as i32) by {
        assert(s < n - 1);
        assert(last_run_of_its_date(rows, gaps, s, n - 1));
        lemma_run_end(rows, gaps, s);
    }
}

/// Readings `i` and `i + 1` belong to one run: their temperatures are equal
/// and their dates are fewer than 45 days apart.
pub open spec fn close_neighbours(rows: Seq<(Seq<char>, i32)>, i: int) -> bool {
    &&& 0 <= i < rows.len() - 1
    &&& rows[i].1 == rows[i + 1].1
    &&& date_gap(rows[i].0, rows[i + 1].0) < 45
}

/// Reading `s` is the first of a run of two or more close readings.
pub open spec fn begins_close_run(rows: Seq<(Seq<char>, i32)>, s: int) -> bool {
    close_neighbours(rows, s) && (s == 0 || !close_neighbours(rows, s - 1))
}

/// The last reading of the run of close readings that goes on from reading `s`.
pub open spec fn close_run_end(rows: Seq<(Seq<char>, i32)>, s: int) -> int
    decreases rows.len() - s,
{
    if s < 0 || s >= rows.len() - 1 || !close_neighbours(rows, s) {
        s
    } else {
        close_run_end(rows, s + 1)
    }
}

proof fn lemma_pair_gaps_count_days(rows: Seq<(Seq<char>, i32)>)
    ensures
        forall|i: int| #[trigger] linked(rows, pair_gaps(rows), i) <==> close_neighbours(rows, i),
{
    assert forall|i: int| #[trigger] linked(rows, pair_gaps(rows), i) <==> close_neighbours(rows, i) by {
        if 0 <= i < rows.len() - 1 && rows[i].1 == rows[i + 1].1 {
            lemma_day_number_any(chrono_parse_ymd(rows[i].0).unwrap());
            lemma_day_number_any(chrono_parse_ymd(rows[i + 1].0).unwrap());
            assert(pair_gaps(rows)[i] == date_gap(rows[i].0, rows[i + 1].0));
        }
    }
}

proof fn lemma_close_run_end(rows: Seq<(Seq<char>, i32)>, s: int)
    requires
        forall|i: int| #[trigger] linked(rows, pair_gaps(rows), i) <==> close_neighbours(rows, i),
    ensures
        run_end(rows, pair_gaps(rows), s) == close_run_end(rows, s),
    decreases rows.len() - s,
{
    if !(s < 0 || s >= rows.len() - 1 || !close_neighbours(rows, s)) {
        lemma_close_run_end(rows, s + 1);
    }
}

/// The runs a chart marks are those of readings with equal temperatures
/// whose dates, from one reading to the next, are fewer than 45 calendar
/// days apart: where no reading carries the "no run" marker date
/// 1800-01-01, a date is marked exactly when such a run of two or more
/// readings begins on a reading of that date, and the mark holds the run's
/// temperature and length (those of the last such run where several begin
/// on readings of the same date).
pub proof fn law_runs_are_readings_under_45_days_apart(rows: Seq<(Seq<char>, i32)>)
    requires
        0 < rows.len() < i32::MAX,
        no_marker_dates(rows),
    ensures
        forall|d: Seq<char>|
            #[trigger] dup_marks(rows).dom().contains(d) <==> exists|s: int|
                #[trigger] begins_close_run(rows, s) && rows[s].0 == d,
        forall|s: int|
            #[trigger] begins_close_run(rows, s) && (forall|s2: int|
                s < s2 && #[trigger] begins_close_run(rows, s2) ==> rows[s2].0 != rows[s].0)
                ==> dup_marks(rows)[rows[s].0] == (rows[s].1, (close_run_end(rows, s) - s + 1) as i32),
{
    let gaps = pair_gaps(rows);
    lemma_pair_gaps_count_days(rows);
    law_marks_are_the_maximal_runs(rows, gaps);
    assert forall|s: int| #[trigger] starts_run(rows, gaps, s) <==> begins_close_run(rows, s) by {
        assert(linked(rows, gaps, s) <==> close_neighbours(rows, s));
        assert(linked(rows, gaps, s - 1) <==> close_neighbours(rows, s - 1));
    }
    let m = dup_marks(rows);
    assert forall|d: Seq<char>| #[trigger] m.dom().contains(d) <==> exists|s: int|
        #[trigger] begins_close_run(rows, s) && rows[s].0 == d by {
        if m.dom().contains(d) {
            let s = choose|s: int| #[trigger] starts_run(rows, gaps, s) && rows[s].0 == d;
            assert(begins_close_run(rows, s));
        }
        if exists|s: int| #[trigger] begins_close_run(rows, s) && rows[s].0 == d {
            let s = choose|s: int| #[trigger] begins_close_run(rows, s) && rows[s].0 == d;
            assert(starts_run(rows, gaps, s));
        }
    }
    assert forall|s: int|
        #[trigger] begins_close_run(rows, s) && (forall|s2: int|
            s < s2 && #[trigger] begins_close_run(rows, s2) ==> rows[s2].0 != rows[s].0) implies m[rows[s].0]
        == (rows[s].1, (close_run_end(rows, s) - s + 1) as i32) by {
        assert(starts_run(rows, gaps, s));
        assert(last_run_of_its_date(rows, gaps, s, rows.len() as int)) by {
            assert forall|s2: int| s < s2 < rows.len() && #[trigger] starts_run(rows, gaps, s2) implies rows[s2].0
                != rows[s].0 by {
                assert(begins_close_run(rows, s2));
            }
        }
        lemma_close_run_end(rows, s);
    }
}

/// Every pair of neighbouring readings with equal temperatures has dates that chrono reads.
pub open spec fn equal_neighbours_dated(rows: Seq<(Seq<char>, i32)>) -> bool {
    forall|i: int|
        0 <= i < rows.len() - 1 && (#[trigger] rows[i]).1 == rows[i + 1].1 ==> {
            &&& chrono_parse_ymd(rows[i].0) is Some
            &&& chrono_parse_ymd(rows[i + 1].0) is Some
        }
}

/// The marks that a list of entries holds.
pub open spec fn entries_map(v: Seq<DupEntry>) -> Map<Seq<char>, (i32, i32)>
    decreases v.len(),
{
    if v.len() == 0 {
        Map::empty()
    } else {
        entries_map(v.drop_last()).insert(v.last().date@, (v.last().temp, v.last().count))
    }
}

/// No date is marked twice.
pub open spec fn distinct_dates(v: Seq<DupEntry>) -> bool {
    forall|i: int, j: int| 0 <= i < j < v.len() ==> (#[trigger] v[i]).date@ != (#[trigger] v[j]).date@
}

proof fn lemma_entries_map(v: Seq<DupEntry>)
    requires
        distinct_dates(v),
    ensures
        forall|k: Seq<char>|
            #[trigger] entries_map(v).dom().contains(k) <==> exists|j: int|
                0 <= j < v.len() && (#[trigger] v[j]).date@ == k,
        forall|j: int|
            0 <= j < v.len() ==> entries_map(v)[(#[trigger] v[j]).date@] == (v[j].temp, v[j].count),
    decreases v.len(),
{
    if v.len() > 0 {
        let w = v.drop_last();
        assert(distinct_dates(w));
        lemma_entries_map(w);
        assert forall|k: Seq<char>|
            #[trigger] entries_map(v).dom().contains(k) <==> exists|j: int|
                0 <= j < v.len() && (#[trigger] v[j]).date@ == k by {
            if entries_map(v).dom().contains(k) {
                if k == v.last().date@ {
                    assert(v[v.len() - 1].date@ == k);
                } else {
                    assert(entries_map(w).dom().contains(k));
                    let j = choose|j: int| 0 <= j < w.len() && (#[trigger] w[j]).date@ == k;
                    assert(v[j] == w[j]);
                }
            }
            if exists|j: int| 0 <= j < v.len() && (#[trigger] v[j]).date@ == k {
                let j = choose|j: int| 0 <= j < v.len() && (#[trigger] v[j]).date@ == k;
                if j < v.len() - 1 {
                    assert(w[j] == v[j]);
                }
            }
        }
        assert forall|j: int| 0 <= j < v.len() implies entries_map(v)[(#[trigger] v[j]).date@] == (
        v[j].temp, v[j].count) by {
            if j < v.len() - 1 {
                assert(w[j] == v[j]);
                assert(v[j].date@ != v[v.len() - 1].date@);
            }
        }
    }
}

/// The place of the entry marked `date`, if there is one.
fn find_mark(v: &Vec<DupEntry>, date: &String) -> (r: Option<usize>)
    ensures
        r matches Some(j) ==> j < v@.len() && v@[j as int].date@ == date@,
        r is None ==> forall|k: int| 0 <= k < v@.len() ==> (#[trigger] v@[k]).date@ != date@,
{
    let n = v.len();
    let mut j: usize = 0;
    while j < n
        invariant
            n == v@.len(),
            j <= n,
            forall|k: int| 0 <= k < j ==> (#[trigger] v@[k]).date@ != date@,
        decreases n - j,
    {
        if v[j].date == *date {
            return Some(j);
        }
        j = j + 1;
    }
    None
}

/// Marks `date` with `(temp, count)`, replacing an earlier mark of the same date.
fn mark(v: &mut Vec<DupEntry>, date: &String, temp: i32, count: i32)
    requires
        distinct_dates(old(v)@),
    ensures
        distinct_dates(final(v)@),
        entries_map(final(v)@) == entries_map(old(v)@).insert(date@, (temp, count)),
{
    let ghost before = v@;
    proof {
        lemma_entries_map(before);
    }
    let e = DupEntry { date: date.clone(), temp, count };
    match find_mark(v, date) {
        Some(j) => {
            v.set(j, e);
            proof {
                assert(distinct_dates(v@)) by {
                    assert forall|a: int, b: int| 0 <= a < b < v@.len() implies (
                    #[trigger] v@[a]).date@ != (#[trigger] v@[b]).date@ by {
                        assert(before[a].date@ != before[b].date@);
                        if a != j as int {
                            assert(v@[a] == before[a]);
                        }
                        if b != j as int {
                            assert(v@[b] == before[b]);
                        }
                    }
                }
                lemma_entries_map(v@);
                let m1 = entries_map(v@);
                let m2 = entries_map(before).insert(date@, (temp, count));
                assert forall|k: Seq<char>| #[trigger] m1.dom().contains(k) <==> m2.dom().contains(
                    k,
                ) by {
                    if m1.dom().contains(k) {
                        let i = choose|i: int| 0 <= i < v@.len() && (#[trigger] v@[i]).date@ == k;
                        if i != j as int {
                            assert(before[i] == v@[i]);
                        }
                    }
                    if m2.dom().contains(k) && k != date@ {
                        assert(entries_map(before).dom().contains(k));
                        let i = choose|i: int|
                            0 <= i < before.len() && (#[trigger] before[i]).date@ == k;
                        assert(v@[i] == before[i]);
                    }
                    if k == date@ {
                        assert(v@[j as int].date@ == k);
                    }
                }
                assert forall|k: Seq<char>| #[trigger] m1.dom().contains(k) implies m1[k] == m2[k] by {
                    let i = choose|i: int| 0 <= i < v@.len() && (#[trigger] v@[i]).date@ == k;
                    if i != j as int {
                        assert(before[i] == v@[i]);
                        assert(v@[i].date@ != date@);
                    }
                }
                assert(m1 =~= m2);
            }
        },
        None => {
            v.push(e);
            proof {
                assert(v@.drop_last() =~= before);
                assert(distinct_dates(v@)) by {
                    assert forall|a: int, b: int| 0 <= a < b < v@.len() implies (
                    #[trigger] v@[a]).date@ != (#[trigger] v@[b]).date@ by {
                        assert(v@[a] == before[a]);
                        if b < before.len() {
                            assert(v@[b] == before[b]);
                        }
                    }
                }
            }
        },
    }
}

/// The runs of equal temperatures less than 45 days apart from one reading
/// to the next, each marked under the date of its first reading with its
/// temperature and its number of readings, where `gaps[i]` is the number of
/// days between reading `i` and reading `i + 1`.
pub fn mark_runs(rows: &Vec<DateTemp>, gaps: &Vec<i64>) -> (r: Vec<DupEntry>)
    requires
        rows@.len() > 0,
        rows@.len() < i32::MAX,
        gaps@.len() == rows@.len() - 1,
    ensures
        distinct_dates(r@),
        entries_map(r@) == dup_marks_with(reading_views(rows@), gaps@),
{
    let ghost rv = reading_views(rows@);
    proof {
        reveal_strlit("1800-01-01");
    }
    let no_run = owned("1800-01-01");
    let mut marks: Vec<DupEntry> = Vec::new();
    let mut run_date: String = owned("1800-01-01");
    let mut count: i32 = 1;
    let last = rows.len() - 1;
    let mut i: usize = 0;
    while i < last
        invariant
            rv == reading_views(rows@),
            last == rows@.len() - 1,
            gaps@.len() == last,
            rows@.len() < i32::MAX,
            no_run@ == no_run_date(),
            i <= last,
            distinct_dates(marks@),
            entries_map(marks@) == dup_scan(rv, gaps@, i as int).marks,
            run_date@ == dup_scan(rv, gaps@, i as int).run_date,
            count == dup_scan(rv, gaps@, i as int).count,
            1 <= count <= i + 1,
        decreases last - i,
    {
        let current = &rows[i];
        let next = &rows[i + 1];
        assert(rv[i as int] == (current.date@, current.temp));
        assert(rv[i + 1] == (next.date@, next.temp));
        if current.temp == next.temp {
            if gaps[i] < 45 {
                count = count + 1;
                if run_date == no_run {
                    run_date = current.date.clone();
                }
                mark(&mut marks, &run_date, current.temp, count);
            } else {
                count = 1;
                run_date = no_run.clone();
            }
        } else if count > 1 {
            mark(&mut marks, &run_date, current.temp, count);
            count = 1;
            run_date = no_run.clone();
        }
        i = i + 1;
    }
    marks
}

/// The runs of equal temperatures recorded less than 45 days apart from one
/// reading to the next, each marked under the date of its first reading
/// with its temperature and its number of readings. The readings are those
/// of a chart, sorted by temperature and then date; only the dates of
/// neighbours with equal temperatures are read.
pub fn find_dup_dates(rows: &Vec<DateTemp>) -> (r: Vec<DupEntry>)
    requires
        rows@.len() > 0,
        rows@.len() < i32::MAX,
        equal_neighbours_dated(reading_views(rows@)),
    ensures
        distinct_dates(r@),
        entries_map(r@) == dup_marks(reading_views(rows@)),
{
    let ghost rv = reading_views(rows@);
    let last = rows.len() - 1;
    let mut gaps: Vec<i64> = Vec::new();
    let mut i: usize = 0;
    while i < last
        invariant
            rv == reading_views(rows@),
            last == rows@.len() - 1,
            equal_neighbours_dated(rv),
            i <= last,
            gaps@ == pair_gaps(rv).take(i as int),
        decreases last - i,
    {
        assert(rv[i as int] == (rows@[i as int].date@, rows@[i as int].temp));
        assert(rv[i + 1] == (rows@[i + 1].date@, rows@[i + 1].temp));
        let g = if rows[i].temp == rows[i + 1].temp {
            dates_diff_in_days(rows[i].date.as_str(), rows[i + 1].date.as_str())
        } else {
            0
        };
        gaps.push(g);
        assert(gaps@ =~= pair_gaps(rv).take(i + 1));
        i = i + 1;
    }
    assert(gaps@ =~= pair_gaps(rv));
    mark_runs(rows, &gaps)
}

/// `find_dup_dates` where every date it reads is one chrono accepts; `None`
/// where some neighbouring pair of equal temperatures has a date chrono
/// cannot read.
pub fn try_find_dup_dates(rows: &Vec<DateTemp>) -> (r: Option<Vec<DupEntry>>)
    requires
        rows@.len() > 0,
        rows@.len() < i32::MAX,
    ensures
        r is Some <==> equal_neighbours_dated(reading_views(rows@)),
        r matches Some(v) ==> distinct_dates(v@) && entries_map(v@) == dup_marks(
            reading_views(rows@),
        ),
{
    let ghost rv = reading_views(rows@);
    let last = rows.len() - 1;
    let mut i: usize = 0;
    while i < last
        invariant
            rv == reading_views(rows@),
            last == rows@.len() - 1,
            i <= last,
            forall|k: int|
                0 <= k < i && (#[trigger] rv[k]).1 == rv[k + 1].1 ==> {
                    &&& chrono_parse_ymd(rv[k].0) is Some
                    &&& chrono_parse_ymd(rv[k + 1].0) is Some
                },
        decreases last - i,
    {
        assert(rv[i as int] == (rows@[i as int].date@, rows@[i as int].temp));
        assert(rv[i + 1] == (rows@[i + 1].date@, rows@[i + 1].temp));
        if rows[i].temp == rows[i + 1].temp {
            let a = parse_date(rows[i].date.as_str());
            let b = parse_date(rows[i + 1].date.as_str());
            if a.is_none() || b.is_none() {
                return None;
            }
        }
        i = i + 1;
    }
    Some(find_dup_dates(rows))
}

} // verus!

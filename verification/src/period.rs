//! The three averaging periods that the charts are drawn for.

use vstd::prelude::*;
use crate::text::str_equal;

verus! {

/// A chart's averaging period: months, weeks or fortnights of a year.
#[derive(Clone, Copy, Debug, PartialEq, Eq, Structural)]
pub enum Period {
    Month,
    Week,
    Fort,
}

/// The name that the bar charts give a period (`"Month"`, `"Week"`, `"Fort"`).
pub open spec fn period_name(p: Period) -> Seq<char> {
    match p {
        Period::Month => "Month"@,
        Period::Week => "Week"@,
        Period::Fort => "Fort"@,
    }
}

/// The number of bars or points a year has in a period.
pub open spec fn spec_slot_count(p: Period) -> int {
    match p {
        Period::Month => 12,
        Period::Week => 52,
        Period::Fort => 26,
    }
}

/// Each period has its own name.
pub proof fn lemma_period_name_injective(p: Period, q: Period)
    ensures
        period_name(p) == period_name(q) ==> p == q,
{
    reveal_strlit("Month");
    reveal_strlit("Week");
    reveal_strlit("Fort");
    if period_name(p) == period_name(q) && p != q {
        assert(period_name(p)[0] != period_name(q)[0] || period_name(p).len() != period_name(q).len());
    }
}

/// The years from `first` to `last`, both included.
pub open spec fn spec_chart_years(first: int, last: int) -> Seq<i32> {
    Seq::new(if last >= first { (last - first + 1) as nat } else { 0 }, |j: int| (first + j) as i32)
}

/// The years a city's yearly charts are drawn for: every year from the
/// first to the last, both included.
pub fn chart_years(first_year: i32, last_year: i32) -> (r: Vec<i32>)
    ensures
        r@ == spec_chart_years(first_year as int, last_year as int),
{
    let mut r: Vec<i32> = Vec::new();
    let mut y: i64 = first_year as i64;
    while y <= last_year as i64
        invariant
            first_year <= y,
            y == first_year || y <= last_year as i64 + 1,
            r@ == Seq::new((y - first_year) as nat, |j: int| (first_year + j) as i32),
        decreases last_year as int + 1 - y as int,
    {
        r.push(y as i32);
        assert(r@ =~= Seq::new((y - first_year + 1) as nat, |j: int| (first_year + j) as i32));
        y = y + 1;
    }
    assert(r@ =~= spec_chart_years(first_year as int, last_year as int));
    r
}

impl Period {
    /// The period whose bar-chart name is `name`; `None` for any other text.
    pub fn from_name(name: &str) -> (r: Option<Period>)
        ensures
            r matches Some(p) ==> period_name(p) == name@,
            r matches Some(p) ==> forall|q: Period| period_name(q) == name@ ==> q == p,
            r is None ==> (forall|p: Period| period_name(p) != name@),
    {
        let r = if str_equal(name, "Month") {
            Some(Period::Month)
        } else if str_equal(name, "Week") {
            Some(Period::Week)
        } else if str_equal(name, "Fort") {
            Some(Period::Fort)
        } else {
            proof {
                assert forall|p: Period| period_name(p) != name@ by {
                    match p {
                        Period::Month => {},
                        Period::Week => {},
                        Period::Fort => {},
                    }
                }
            }
            None
        };
        proof {
            if let Some(p) = r {
                assert forall|q: Period| period_name(q) == name@ implies q == p by {
                    lemma_period_name_injective(q, p);
                }
            }
        }
        r
    }

    /// The name of the period in bar-chart titles and tables.
    pub fn name(&self) -> (r: &'static str)
        ensures
            r@ == period_name(*self),
    {
        match self {
            Period::Month => "Month",
            Period::Week => "Week",
            Period::Fort => "Fort",
        }
    }

    /// 12 months, 52 weeks or 26 fortnights.
    pub fn slot_count(&self) -> (r: usize)
        ensures
            r == spec_slot_count(*self),
    {
        match self {
            Period::Month => 12,
            Period::Week => 52,
            Period::Fort => 26,
        }
    }
}

} // verus!

//! The readings the charts are drawn from, as the program reads them from
//! its database: a column that could not be read is `None`.

use vstd::prelude::*;

verus! {

/// One period of a year: the average and median highs and lows.
#[derive(Clone, Copy, Debug, PartialEq, Eq, Structural)]
pub struct TempRow {
    pub tmax: Option<i32>,
    pub tmin: Option<i32>,
    pub mmax: Option<i32>,
    pub mmin: Option<i32>,
}

/// One year of a city's range counts: how many weeks fell in each
/// temperature range.
#[derive(Clone, Copy, Debug, PartialEq, Eq, Structural)]
pub struct RangeRow {
    pub tyear: Option<i32>,
    pub count_100s: Option<i32>,
    pub count_90s: Option<i32>,
    pub count_80s: Option<i32>,
    pub count_70s: Option<i32>,
    pub count_60s: Option<i32>,
    pub count_50s: Option<i32>,
    pub count_40s: Option<i32>,
    pub count_30s: Option<i32>,
    pub count_freezing: Option<i32>,
}

/// The four columns of a period row.
#[derive(Clone, Copy, Debug, PartialEq, Eq, Structural)]
pub enum TempColumn {
    /// Average high.
    Tmax,
    /// Average low.
    Tmin,
    /// Median high.
    Mmax,
    /// Median low.
    Mmin,
}

pub open spec fn spec_column(row: TempRow, c: TempColumn) -> Option<i32> {
    match c {
        TempColumn::Tmax => row.tmax,
        TempColumn::Tmin => row.tmin,
        TempColumn::Mmax => row.mmax,
        TempColumn::Mmin => row.mmin,
    }
}

/// Each column of the rows is read from its own field: the average highs
/// from `tmax`, the average lows from `tmin`, the median highs from `mmax`
/// and the median lows from `mmin`.
pub proof fn law_columns_read_their_own_fields(rows: Seq<TempRow>)
    ensures
        rows.map_values(|row: TempRow| spec_column(row, TempColumn::Tmax)) == rows.map_values(
            |row: TempRow| row.tmax,
        ),
        rows.map_values(|row: TempRow| spec_column(row, TempColumn::Tmin)) == rows.map_values(
            |row: TempRow| row.tmin,
        ),
        rows.map_values(|row: TempRow| spec_column(row, TempColumn::Mmax)) == rows.map_values(
            |row: TempRow| row.mmax,
        ),
        rows.map_values(|row: TempRow| spec_column(row, TempColumn::Mmin)) == rows.map_values(
            |row: TempRow| row.mmin,
        ),
{
    assert(rows.map_values(|row: TempRow| spec_column(row, TempColumn::Tmax)) =~= rows.map_values(
        |row: TempRow| row.tmax,
    ));
    assert(rows.map_values(|row: TempRow| spec_column(row, TempColumn::Tmin)) =~= rows.map_values(
        |row: TempRow| row.tmin,
    ));
    assert(rows.map_values(|row: TempRow| spec_column(row, TempColumn::Mmax)) =~= rows.map_values(
        |row: TempRow| row.mmax,
    ));
    assert(rows.map_values(|row: TempRow| spec_column(row, TempColumn::Mmin)) =~= rows.map_values(
        |row: TempRow| row.mmin,
    ));
}

/// One column of each row.
pub fn column_values(rows: &Vec<TempRow>, c: TempColumn) -> (r: Vec<Option<i32>>)
    ensures
        r@ == rows@.map_values(|row: TempRow| spec_column(row, c)),
{
    let mut r: Vec<Option<i32>> = Vec::new();
    let n = rows.len();
    let mut i: usize = 0;
    while i < n
        invariant
            n == rows@.len(),
            i <= n,
            r@ == rows@.take(i as int).map_values(|row: TempRow| spec_column(row, c)),
        decreases n - i,
    {
        let row = rows[i];
        let v = match c {
            TempColumn::Tmax => row.tmax,
            TempColumn::Tmin => row.tmin,
            TempColumn::Mmax => row.mmax,
            TempColumn::Mmin => row.mmin,
        };
        r.push(v);
        assert(rows@.take(i + 1).map_values(|row: TempRow| spec_column(row, c)) =~= rows@.take(
            i as int,
        ).map_values(|row: TempRow| spec_column(row, c)).push(v));
        i = i + 1;
    }
    assert(rows@.take(n as int) =~= rows@);
    r
}

} // verus!

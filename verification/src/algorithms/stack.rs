//! Stacking: where each series of a stacked bar or area chart starts and
//! ends in every category.

use crate::number::float::{Float, ZERO_BITS};
use vstd::prelude::*;

verus! {

/// The extent of one series in one category: from `y0` up to `y1`.
#[derive(Debug, Clone, Copy, PartialEq)]
pub struct StackedValue {
    pub y0: Float,
    pub y1: Float,
}

/// The stacked values of one series, with the position of the series in the
/// input.
#[derive(Debug, Clone)]
pub struct StackedSeries {
    pub series_index: usize,
    pub values: Vec<StackedValue>,
}

/// The views of a list of vectors.
pub open spec fn rows(series: Seq<Vec<Float>>) -> Seq<Seq<Float>> {
    series.map_values(|v: Vec<Float>| v@)
}

/// The height that category `j` has reached below series `i`: zero below
/// the first series, and above a series the sum of what lies below it and its
/// own value. Only the categories of the first series are kept track of; any
/// further one starts from zero in every series.
pub open spec fn baseline(series: Seq<Seq<Float>>, i: int, j: int) -> Float
    decreases i,
{
    if i <= 0 || i > series.len() {
        Float::from_bits(ZERO_BITS)
    } else if j < series[0].len() && j < series[i - 1].len() {
        baseline(series, i - 1, j).spec_add(series[i - 1][j])
    } else {
        baseline(series, i - 1, j)
    }
}

/// The stacked value of series `i` in category `j`.
pub open spec fn stacked_value(series: Seq<Seq<Float>>, i: int, j: int) -> StackedValue {
    StackedValue {
        y0: baseline(series, i, j),
        y1: baseline(series, i, j).spec_add(series[i][j]),
    }
}

/// Whether `out` is `series` stacked: one entry per series, in order, each
/// with one value per value of its series.
pub open spec fn is_stacked(series: Seq<Seq<Float>>, out: Seq<StackedSeries>) -> bool {
    &&& out.len() == series.len()
    &&& forall|i: int|
        0 <= i < series.len() ==> {
            &&& (#[trigger] out[i]).series_index == i
            &&& out[i].values@.len() == series[i].len()
        }
    &&& forall|i: int, j: int|
        0 <= i < series.len() && 0 <= j < series[i].len() ==> #[trigger] out[i].values@[j]
            == stacked_value(series, i, j)
}

/// Stacks the series on top of each other, the first at the bottom.
///
/// In every category a series starts where the one before it ended; the
/// first starts at zero.
pub fn stack_series(series_values: &[Vec<Float>]) -> (r: Vec<StackedSeries>)
    ensures
        is_stacked(rows(series_values@), r@),
{
    let ghost series = rows(series_values@);
    let mut result: Vec<StackedSeries> = Vec::new();
    let n = series_values.len();
    if n == 0 {
        return result;
    }
    let n_categories = series_values[0].len();
    assert(series[0] == series_values@[0]@);
    let mut baselines: Vec<Float> = Vec::new();
    let mut c: usize = 0;
    while c < n_categories
        invariant
            c <= n_categories,
            baselines@.len() == c,
            forall|j: int| 0 <= j < c ==> baselines@[j] == Float::from_bits(ZERO_BITS),
        decreases n_categories - c,
    {
        baselines.push(Float::from_bits(ZERO_BITS));
        c += 1;
    }
    let mut si: usize = 0;
    while si < n
        invariant
            si <= n,
            n == series_values@.len(),
            n == series.len(),
            series == rows(series_values@),
            n_categories == series[0].len(),
            baselines@.len() == n_categories,
            forall|j: int| 0 <= j < n_categories ==> baselines@[j] == baseline(series, si as int, j),
            result@.len() == si,
            forall|i: int|
                0 <= i < si ==> {
                    &&& (#[trigger] result@[i]).series_index == i
                    &&& result@[i].values@.len() == series[i].len()
                },
            forall|i: int, j: int|
                0 <= i < si && 0 <= j < series[i].len() ==> #[trigger] result@[i].values@[j]
                    == stacked_value(series, i, j),
        decreases n - si,
    {
        let values = &series_values[si];
        assert(series[si as int] == values@);
        let m = values.len();
        let mut stacked: Vec<StackedValue> = Vec::new();
        let mut ci: usize = 0;
        while ci < m
            invariant
                ci <= m,
                si < n,
                n == series.len(),
                m == values@.len(),
                series[si as int] == values@,
                n_categories == series[0].len(),
                baselines@.len() == n_categories,
                forall|j: int|
                    0 <= j < n_categories ==> baselines@[j] == baseline(series, si as int, j),
                stacked@.len() == ci,
                forall|j: int| 0 <= j < ci ==> stacked@[j] == stacked_value(series, si as int, j),
            decreases m - ci,
        {
            let y0 = if ci < n_categories {
                baselines[ci]
            } else {
                proof {
                    lemma_untracked_baseline(series, si as int, ci as int);
                }
                Float::from_bits(ZERO_BITS)
            };
            let y1 = y0.add(values[ci]);
            stacked.push(StackedValue { y0, y1 });
            ci += 1;
        }
        let mut ui: usize = 0;
        while ui < m && ui < n_categories
            invariant
                ui <= m,
                ui <= n_categories,
                si < n,
                n == series.len(),
                m == values@.len(),
                series[si as int] == values@,
                n_categories == series[0].len(),
                baselines@.len() == n_categories,
                stacked@.len() == m,
                forall|j: int| 0 <= j < m ==> stacked@[j] == stacked_value(series, si as int, j),
                forall|j: int| 0 <= j < ui ==> baselines@[j] == baseline(series, si + 1, j),
                forall|j: int|
                    ui <= j < n_categories ==> baselines@[j] == baseline(series, si as int, j),
            decreases m - ui,
        {
            baselines.set(ui, stacked[ui].y1);
            ui += 1;
        }
        result.push(StackedSeries { series_index: si, values: stacked });
        si += 1;
    }
    result
}

/// Each series starts where the one below it ended: in a category that the
/// first series and two neighbouring series all have, the lower end of the
/// upper series is the upper end of the lower one.
pub proof fn lemma_stack_is_contiguous(series: Seq<Seq<Float>>, i: int, j: int)
    requires
        0 <= i,
        i + 1 < series.len(),
        0 <= j < series[0].len(),
        j < series[i].len(),
        j < series[i + 1].len(),
    ensures
        stacked_value(series, i + 1, j).y0 == stacked_value(series, i, j).y1,
{
}

/// The lowest series starts at zero in every category.
pub proof fn lemma_stack_starts_at_zero(series: Seq<Seq<Float>>, j: int)
    requires
        series.len() > 0,
        0 <= j < series[0].len(),
    ensures
        stacked_value(series, 0, j).y0 == Float::from_bits(ZERO_BITS),
{
}

/// A category beyond those of the first series has baseline zero throughout.
proof fn lemma_untracked_baseline(series: Seq<Seq<Float>>, i: int, j: int)
    requires
        0 <= i <= series.len(),
        series.len() > 0,
        j >= series[0].len(),
    ensures
        baseline(series, i, j) == Float::from_bits(ZERO_BITS),
    decreases i,
{
    if i > 0 {
        lemma_untracked_baseline(series, i - 1, j);
    }
}

} // verus!

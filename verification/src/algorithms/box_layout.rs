//! The layout of a box plot: where each group stands and what it shows.

use crate::algorithms::sorting::ascending;
use crate::algorithms::statistics::{box_plot_stats, box_plot_summary, BoxPlotStats};
use crate::model::convert::BoxGroup;
use crate::model::scale::{BandScale, LinearScale, Scale};
use crate::number::float::Float;
use vstd::prelude::*;

verus! {

/// One group of a box plot on the screen: the middle and the width of its
/// band, and its statistics.
#[derive(Debug, Clone)]
pub struct GroupLayout {
    pub center: Float,
    pub band_width: Float,
    pub stats: BoxPlotStats,
}

/// The positions of the groups that have values, in order.
pub open spec fn shown_groups(groups: Seq<BoxGroup>) -> Seq<int>
    decreases groups.len(),
{
    if groups.len() == 0 {
        Seq::empty()
    } else if groups.last().data@.len() == 0 {
        shown_groups(groups.drop_last())
    } else {
        shown_groups(groups.drop_last()).push(groups.len() - 1)
    }
}

/// The outliers of a group on the screen: each at the middle of the band
/// and at the height that the scale gives its value.
pub open spec fn outlier_positions(outliers: Seq<Float>, center: Float, y_scale: LinearScale) -> Seq<
    (Float, Float),
> {
    outliers.map_values(|v: Float| (center, y_scale.spec_map(v)))
}

/// Whether `layout` and `outliers` lay out the group at position `i`.
pub open spec fn lays_out(
    groups: Seq<BoxGroup>,
    x_band: BandScale,
    y_scale: LinearScale,
    i: int,
    layout: GroupLayout,
    outliers: Seq<(Float, Float)>,
) -> bool {
    &&& layout.center == x_band.spec_map_index_center(i as usize)
    &&& layout.band_width == x_band.spec_band_width()
    &&& box_plot_summary(ascending(groups[i].data@), layout.stats)
    &&& outliers == outlier_positions(layout.stats.outliers@, layout.center, y_scale)
}

/// The layout of the groups of a box plot: for each group that has values,
/// the middle and the width of its band, its statistics, and the positions
/// of its outliers. Groups without values are left out, but keep their band.
pub fn compute_groups(groups: &[BoxGroup], x_band: &BandScale, y_scale: &LinearScale) -> (r: Vec<
    (GroupLayout, Vec<(Float, Float)>),
>)
    ensures
        r@.len() == shown_groups(groups@).len(),
        forall|k: int|
            0 <= k < r@.len() ==> lays_out(
                groups@,
                *x_band,
                *y_scale,
                shown_groups(groups@)[k],
                (#[trigger] r@[k]).0,
                r@[k].1@,
            ),
{
    let n = groups.len();
    let mut out: Vec<(GroupLayout, Vec<(Float, Float)>)> = Vec::new();
    let mut i: usize = 0;
    while i < n
        invariant
            i <= n,
            n == groups@.len(),
            out@.len() == shown_groups(groups@.take(i as int)).len(),
            forall|k: int|
                0 <= k < out@.len() ==> 0 <= #[trigger] shown_groups(groups@.take(i as int))[k] < i,
            forall|k: int|
                0 <= k < out@.len() ==> lays_out(
                    groups@,
                    *x_band,
                    *y_scale,
                    shown_groups(groups@.take(i as int))[k],
                    (#[trigger] out@[k]).0,
                    out@[k].1@,
                ),
        decreases n - i,
    {
        assert(groups@.take(i + 1).drop_last() =~= groups@.take(i as int));
        assert(groups@.take(i + 1).last() == groups@[i as int]);
        if groups[i].data.len() > 0 {
            let mut data_copy = groups[i].data.clone();
            if let Some(stats) = box_plot_stats(data_copy.as_mut_slice()) {
                let center = x_band.map_index_center(i);
                let band_width = x_band.band_width();
                let m = stats.outliers.len();
                let mut positions: Vec<(Float, Float)> = Vec::new();
                let mut j: usize = 0;
                while j < m
                    invariant
                        j <= m,
                        m == stats.outliers@.len(),
                        positions@.len() == j,
                        forall|k: int|
                            0 <= k < j ==> positions@[k] == (
                                center,
                                y_scale.spec_map(stats.outliers@[k]),
                            ),
                    decreases m - j,
                {
                    positions.push((center, y_scale.map(stats.outliers[j])));
                    j += 1;
                }
                assert(positions@ =~= outlier_positions(stats.outliers@, center, *y_scale));
                out.push((GroupLayout { center, band_width, stats }, positions));
            }
        }
        i += 1;
    }
    assert(groups@.take(n as int) =~= groups@);
    out
}

} // verus!

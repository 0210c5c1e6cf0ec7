//! Plain data carried between the table, the algorithms and a renderer.

use crate::number::float::Float;
use vstd::prelude::*;

verus! {

/// One sample of a series.
#[derive(Debug, Clone, Copy, PartialEq)]
pub struct DataPoint {
    pub x: Float,
    pub y: Float,
}

impl DataPoint {
    /// The point at `(x, y)`.
    pub fn new(x: Float, y: Float) -> (r: DataPoint)
        ensures
            r.x == x,
            r.y == y,
    {
        DataPoint { x, y }
    }

    /// Whether both coordinates are numerically equal to those of `other`.
    pub open spec fn spec_coincides(self, other: DataPoint) -> bool {
        self.x.spec_same(other.x) && self.y.spec_same(other.y)
    }

    /// Whether both coordinates are the same numbers as those of `other`.
    #[verifier::when_used_as_spec(spec_coincides)]
    pub fn coincides(self, other: DataPoint) -> (r: bool)
        ensures
            r == self.spec_coincides(other),
    {
        self.x.same(other.x) && self.y.same(other.y)
    }
}

/// A named, ordered sequence of items. `visible` belongs to the caller: no
/// function of this library changes it after construction.
#[derive(Debug, Clone)]
pub struct Series<T> {
    pub name: String,
    pub data: Vec<T>,
    pub visible: bool,
}

impl<T> Series<T> {
    /// A visible series with the given name and items.
    pub fn new(name: &str, data: Vec<T>) -> (r: Series<T>)
        ensures
            r.name@ == name@,
            r.data == data,
            r.visible,
    {
        Series { name: name.to_owned(), data, visible: true }
    }
}

/// Series in insertion order; names need not be unique.
#[derive(Debug, Clone)]
pub struct Dataset {
    pub series: Vec<Series<DataPoint>>,
}

impl Dataset {
    /// A dataset without series.
    pub fn new() -> (r: Dataset)
        ensures
            r.series@.len() == 0,
    {
        Dataset { series: Vec::new() }
    }

    /// Appends `series` after those already present.
    pub fn add_series(&mut self, series: Series<DataPoint>)
        ensures
            final(self).series@ == old(self).series@.push(series),
    {
        self.series.push(series);
    }

    /// A dataset that holds the same as this one.
    pub fn copy(&self) -> (r: Dataset)
        ensures
            self.same_series(r),
    {
        let n = self.series.len();
        let mut series: Vec<Series<DataPoint>> = Vec::new();
        let mut i: usize = 0;
        while i < n
            invariant
                i <= n,
                n == self.series@.len(),
                series@.len() == i,
                forall|k: int|
                    0 <= k < i ==> {
                        &&& (#[trigger] series@[k]).name@ == self.series@[k].name@
                        &&& series@[k].data@ == self.series@[k].data@
                        &&& series@[k].visible == self.series@[k].visible
                    },
            decreases n - i,
        {
            let one = &self.series[i];
            series.push(Series { name: one.name.clone(), data: one.data.clone(), visible: one.visible });
            i += 1;
        }
        Dataset { series }
    }

    /// Whether `other` holds series of the same names, points and visibility,
    /// in the same order.
    pub open spec fn same_series(&self, other: Dataset) -> bool {
        &&& other.series@.len() == self.series@.len()
        &&& forall|k: int|
            0 <= k < self.series@.len() ==> {
                &&& (#[trigger] other.series@[k]).name@ == self.series@[k].name@
                &&& other.series@[k].data@ == self.series@[k].data@
                &&& other.series@[k].visible == self.series@[k].visible
            }
    }

    /// A dataset of one series.
    pub fn from_series(series: Series<DataPoint>) -> (r: Dataset)
        ensures
            r.series@ == seq![series],
    {
        let mut all: Vec<Series<DataPoint>> = Vec::new();
        all.push(series);
        Dataset { series: all }
    }
}

impl Default for Dataset {
    fn default() -> (r: Dataset)
        ensures
            r.series@.len() == 0,
    {
        Dataset::new()
    }
}

/// One candlestick: prices over a period that starts at `timestamp`.
#[derive(Debug, Clone, Copy, PartialEq)]
pub struct OhlcBar {
    pub timestamp: Float,
    pub open: Float,
    pub high: Float,
    pub low: Float,
    pub close: Float,
}

impl OhlcBar {
    /// The candlestick of the given prices.
    pub fn new(timestamp: Float, open: Float, high: Float, low: Float, close: Float) -> (r: OhlcBar)
        ensures
            r.timestamp == timestamp,
            r.open == open,
            r.high == high,
            r.low == low,
            r.close == close,
    {
        OhlcBar { timestamp, open, high, low, close }
    }

    /// Whether the period closed at or above its opening price.
    pub fn is_bullish(&self) -> (r: bool)
        ensures
            r == self.close.spec_ge(self.open),
    {
        self.close.ge(self.open)
    }
}

/// What a waterfall bar does to the running total.
#[derive(Debug, Clone, Copy, PartialEq, Eq, Structural)]
pub enum WaterfallKind {
    /// Sets the running total to the bar's value.
    Start,
    /// Adds the bar's value to the running total.
    Delta,
    /// Shows the running total from zero and leaves it unchanged.
    Total,
}

/// One bar of a waterfall chart.
#[derive(Debug, Clone)]
pub struct WaterfallBar {
    pub label: String,
    pub value: Float,
    pub kind: WaterfallKind,
}

impl WaterfallBar {
    /// A bar that adds `value` to the running total.
    pub fn delta(label: &str, value: Float) -> (r: WaterfallBar)
        ensures
            r.label@ == label@,
            r.value == value,
            r.kind == WaterfallKind::Delta,
    {
        WaterfallBar { label: label.to_owned(), value, kind: WaterfallKind::Delta }
    }

    /// A bar that sets the running total to `value`.
    pub fn start(label: &str, value: Float) -> (r: WaterfallBar)
        ensures
            r.label@ == label@,
            r.value == value,
            r.kind == WaterfallKind::Start,
    {
        WaterfallBar { label: label.to_owned(), value, kind: WaterfallKind::Start }
    }

    /// A bar that shows the running total.
    pub fn total(label: &str, value: Float) -> (r: WaterfallBar)
        ensures
            r.label@ == label@,
            r.value == value,
            r.kind == WaterfallKind::Total,
    {
        WaterfallBar { label: label.to_owned(), value, kind: WaterfallKind::Total }
    }
}

/// The values of one bar series, one per category of its dataset.
#[derive(Debug, Clone)]
pub struct BarSeries {
    pub name: String,
    pub values: Vec<Float>,
}

/// Categories and the bar series drawn over them. Consumers expect each
/// series to hold one value per category; nothing here enforces it.
#[derive(Debug, Clone)]
pub struct BarDataset {
    pub categories: Vec<String>,
    pub series: Vec<BarSeries>,
}

impl BarDataset {
    /// The categories without any series yet.
    pub fn new(categories: Vec<String>) -> (r: BarDataset)
        ensures
            r.categories == categories,
            r.series@.len() == 0,
    {
        BarDataset { categories, series: Vec::new() }
    }

    /// Whether `other` holds the same categories and series of the same
    /// names and values, in the same order.
    pub open spec fn same_bars(&self, other: BarDataset) -> bool {
        &&& other.categories@.len() == self.categories@.len()
        &&& forall|k: int|
            0 <= k < self.categories@.len() ==> (#[trigger] other.categories@[k])@
                == self.categories@[k]@
        &&& other.series@.len() == self.series@.len()
        &&& forall|k: int|
            0 <= k < self.series@.len() ==> {
                &&& (#[trigger] other.series@[k]).name@ == self.series@[k].name@
                &&& other.series@[k].values@ == self.series@[k].values@
            }
    }

    /// A bar dataset that holds the same as this one.
    pub fn copy(&self) -> (r: BarDataset)
        ensures
            self.same_bars(r),
    {
        let n = self.categories.len();
        let mut categories: Vec<String> = Vec::new();
        let mut i: usize = 0;
        while i < n
            invariant
                i <= n,
                n == self.categories@.len(),
                categories@.len() == i,
                forall|k: int| 0 <= k < i ==> (#[trigger] categories@[k])@ == self.categories@[k]@,
            decreases n - i,
        {
            categories.push(self.categories[i].clone());
            i += 1;
        }
        let m = self.series.len();
        let mut series: Vec<BarSeries> = Vec::new();
        let mut j: usize = 0;
        while j < m
            invariant
                j <= m,
                m == self.series@.len(),
                series@.len() == j,
                forall|k: int|
                    0 <= k < j ==> {
                        &&& (#[trigger] series@[k]).name@ == self.series@[k].name@
                        &&& series@[k].values@ == self.series@[k].values@
                    },
            decreases m - j,
        {
            let one = &self.series[j];
            series.push(BarSeries { name: one.name.clone(), values: one.values.clone() });
            j += 1;
        }
        BarDataset { categories, series }
    }

    /// Appends a series with the given name and values.
    pub fn add_series(&mut self, name: &str, values: Vec<Float>)
        ensures
            final(self).categories == old(self).categories,
            final(self).series@.len() == old(self).series@.len() + 1,
            final(self).series@.drop_last() == old(self).series@,
            final(self).series@.last().name@ == name@,
            final(self).series@.last().values == values,
    {
        self.series.push(BarSeries { name: name.to_owned(), values });
    }
}

impl Default for BarDataset {
    fn default() -> (r: BarDataset)
        ensures
            r.categories@.len() == 0,
            r.series@.len() == 0,
    {
        BarDataset { categories: Vec::new(), series: Vec::new() }
    }
}

/// How the values of a field are to be read.
#[derive(Debug, Clone, Copy, PartialEq, Eq, Structural)]
pub enum DataType {
    /// Continuous numbers.
    Quantitative,
    /// Points in time.
    Temporal,
    /// Unordered categories.
    Nominal,
    /// Ordered categories.
    Ordinal,
}

} // verus!

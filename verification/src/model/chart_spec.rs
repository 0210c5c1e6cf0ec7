//! Chart specifications: data, mark and fields, put together by a builder
//! that cannot build before all three are given.

use crate::model::data::{BarDataset, DataPoint, Dataset, Series};
use crate::model::encoding::{Encoding, Field};
use crate::model::field_value::{
    bar_values, distinct, group_keys, has_bar_series, has_series, rows_with_key, texts_of,
    xy_points, DataTable,
};
use crate::number::text::names;
use crate::model::mark::Mark;
use crate::model::style::{grid_of, ChartConfig, GridModel, GridStyle};
use vstd::prelude::*;

verus! {

/// The state of a builder part that has not been given yet.
pub struct Missing;

/// The state of a builder part that has been given.
pub struct Given<T>(pub T);

/// The data of a chart, in one of three shapes.
#[derive(Debug, Clone)]
pub enum ChartData {
    /// Series of points.
    TimeSeries(Dataset),
    /// Bars over categories.
    Categorical(BarDataset),
    /// Rows that an encoding has yet to turn into series or bars.
    Table(DataTable),
}

impl ChartData {
    /// The series of points, where the data has that shape.
    pub fn as_dataset(&self) -> (r: Option<&Dataset>)
        ensures
            r == match self {
                ChartData::TimeSeries(ds) => Some(ds),
                _ => None,
            },
    {
        match self {
            ChartData::TimeSeries(ds) => Some(ds),
            _ => None,
        }
    }

    /// The bars, where the data has that shape.
    pub fn as_bar_dataset(&self) -> (r: Option<&BarDataset>)
        ensures
            r == match self {
                ChartData::Categorical(bd) => Some(bd),
                _ => None,
            },
    {
        match self {
            ChartData::Categorical(bd) => Some(bd),
            _ => None,
        }
    }

    /// The table, where the data has that shape.
    pub fn as_table(&self) -> (r: Option<&DataTable>)
        ensures
            r == match self {
                ChartData::Table(t) => Some(t),
                _ => None,
            },
    {
        match self {
            ChartData::Table(t) => Some(t),
            _ => None,
        }
    }
}

/// All that a renderer needs to draw a chart.
#[derive(Debug, Clone)]
pub struct ChartSpec {
    pub data: ChartData,
    pub mark: Mark,
    pub x: Field,
    pub y: Option<Field>,
    pub color: Option<Field>,
    pub size: Option<Field>,
    pub config: ChartConfig,
}

/// A chart specification in the making. `D`, `M` and `X` tell whether the
/// data, the mark and the `x` field have been given; each can be given once,
/// in any order, and only a builder with all three builds.
pub struct ChartSpecBuilder<D, M, X> {
    data: D,
    mark: M,
    x: X,
    y: Option<Field>,
    color: Option<Field>,
    size: Option<Field>,
    config: ChartConfig,
}

impl ChartSpec {
    /// A builder to which nothing has been given.
    pub fn builder() -> (r: ChartSpecBuilder<Missing, Missing, Missing>)
        ensures
            r.y_of().is_none(),
            r.color_of().is_none(),
            r.size_of().is_none(),
            r.config_of().is_unset(),
    {
        ChartSpecBuilder {
            data: Missing,
            mark: Missing,
            x: Missing,
            y: None,
            color: None,
            size: None,
            config: ChartConfig::default(),
        }
    }
}

impl<D, M, X> ChartSpecBuilder<D, M, X> {
    /// The data, or the mark that none has been given.
    pub closed spec fn data_of(&self) -> D {
        self.data
    }

    /// The mark, or the mark that none has been given.
    pub closed spec fn mark_of(&self) -> M {
        self.mark
    }

    /// The `x` field, or the mark that none has been given.
    pub closed spec fn x_of(&self) -> X {
        self.x
    }

    /// The `y` field, if one has been set.
    pub closed spec fn y_of(&self) -> Option<Field> {
        self.y
    }

    /// The colour field, if one has been set.
    pub closed spec fn color_of(&self) -> Option<Field> {
        self.color
    }

    /// The size field, if one has been set.
    pub closed spec fn size_of(&self) -> Option<Field> {
        self.size
    }

    /// The configuration.
    pub closed spec fn config_of(&self) -> ChartConfig {
        self.config
    }

    /// Whether `self` and `other` agree on the optional fields and the
    /// configuration.
    pub open spec fn same_options<D2, M2, X2>(&self, other: ChartSpecBuilder<D2, M2, X2>) -> bool {
        &&& self.y_of() == other.y_of()
        &&& self.color_of() == other.color_of()
        &&& self.size_of() == other.size_of()
        &&& self.config_of() == other.config_of()
    }

    /// Sets the `y` field.
    pub fn y(self, field: Field) -> (r: Self)
        ensures
            r.y_of() == Some(field),
            r.data_of() == self.data_of(),
            r.mark_of() == self.mark_of(),
            r.x_of() == self.x_of(),
            r.color_of() == self.color_of(),
            r.size_of() == self.size_of(),
            r.config_of() == self.config_of(),
    {
        let mut b = self;
        b.y = Some(field);
        b
    }

    /// Sets the colour field.
    pub fn color(self, field: Field) -> (r: Self)
        ensures
            r.color_of() == Some(field),
            r.data_of() == self.data_of(),
            r.mark_of() == self.mark_of(),
            r.x_of() == self.x_of(),
            r.y_of() == self.y_of(),
            r.size_of() == self.size_of(),
            r.config_of() == self.config_of(),
    {
        let mut b = self;
        b.color = Some(field);
        b
    }

    /// Sets the size field.
    pub fn size(self, field: Field) -> (r: Self)
        ensures
            r.size_of() == Some(field),
            r.data_of() == self.data_of(),
            r.mark_of() == self.mark_of(),
            r.x_of() == self.x_of(),
            r.y_of() == self.y_of(),
            r.color_of() == self.color_of(),
            r.config_of() == self.config_of(),
    {
        let mut b = self;
        b.size = Some(field);
        b
    }

    /// Sets the title in the configuration.
    pub fn title(self, title: &str) -> (r: Self)
        ensures
            r.config_of().title.is_some(),
            r.config_of().title.unwrap()@ == title@,
            r.config_of().grid == self.config_of().grid,
            r.config_of().same_but_title_and_grid(self.config_of()),
            r.data_of() == self.data_of(),
            r.mark_of() == self.mark_of(),
            r.x_of() == self.x_of(),
            r.y_of() == self.y_of(),
            r.color_of() == self.color_of(),
            r.size_of() == self.size_of(),
    {
        let mut b = self;
        b.config.title = Some(title.to_owned());
        b
    }

    /// Sets the grid in the configuration to the default grid, shown or
    /// hidden along both axes.
    pub fn grid(self, show: bool) -> (r: Self)
        ensures
            r.config_of().grid.is_some(),
            r.config_of().grid.unwrap()@ == (GridModel {
                show_x: show,
                show_y: show,
                ..grid_of("#e0e0e0"@)
            }),
            r.config_of().title == self.config_of().title,
            r.config_of().same_but_title_and_grid(self.config_of()),
            r.data_of() == self.data_of(),
            r.mark_of() == self.mark_of(),
            r.x_of() == self.x_of(),
            r.y_of() == self.y_of(),
            r.color_of() == self.color_of(),
            r.size_of() == self.size_of(),
    {
        let mut b = self;
        let mut grid = GridStyle::default();
        grid.show_x = show;
        grid.show_y = show;
        b.config.grid = Some(grid);
        b
    }

    /// Replaces the configuration.
    pub fn config(self, config: ChartConfig) -> (r: Self)
        ensures
            r.config_of() == config,
            r.data_of() == self.data_of(),
            r.mark_of() == self.mark_of(),
            r.x_of() == self.x_of(),
            r.y_of() == self.y_of(),
            r.color_of() == self.color_of(),
            r.size_of() == self.size_of(),
    {
        let mut b = self;
        b.config = config;
        b
    }
}

impl<M, X> ChartSpecBuilder<Missing, M, X> {
    /// Gives series of points as the data.
    pub fn data(self, dataset: Dataset) -> (r: ChartSpecBuilder<Given<ChartData>, M, X>)
        ensures
            r.data_of() == Given(ChartData::TimeSeries(dataset)),
            r.mark_of() == self.mark_of(),
            r.x_of() == self.x_of(),
            r.same_options(self),
    {
        ChartSpecBuilder {
            data: Given(ChartData::TimeSeries(dataset)),
            mark: self.mark,
            x: self.x,
            y: self.y,
            color: self.color,
            size: self.size,
            config: self.config,
        }
    }

    /// Gives one series of the given points, called `default`, as the data.
    pub fn data_points(self, points: Vec<DataPoint>) -> (r: ChartSpecBuilder<Given<ChartData>, M, X>)
        ensures
            r.data_of().0 is TimeSeries,
            r.data_of().0->TimeSeries_0.series@.len() == 1,
            r.data_of().0->TimeSeries_0.series@[0].name@ == "default"@,
            r.data_of().0->TimeSeries_0.series@[0].data == points,
            r.data_of().0->TimeSeries_0.series@[0].visible,
            r.mark_of() == self.mark_of(),
            r.x_of() == self.x_of(),
            r.same_options(self),
    {
        let series = Series::new("default", points);
        let dataset = Dataset::from_series(series);
        self.data(dataset)
    }

    /// Gives bars over categories as the data.
    pub fn bar_data(self, bar_dataset: BarDataset) -> (r: ChartSpecBuilder<Given<ChartData>, M, X>)
        ensures
            r.data_of() == Given(ChartData::Categorical(bar_dataset)),
            r.mark_of() == self.mark_of(),
            r.x_of() == self.x_of(),
            r.same_options(self),
    {
        ChartSpecBuilder {
            data: Given(ChartData::Categorical(bar_dataset)),
            mark: self.mark,
            x: self.x,
            y: self.y,
            color: self.color,
            size: self.size,
            config: self.config,
        }
    }

    /// Gives a table as the data.
    pub fn from_table(self, table: DataTable) -> (r: ChartSpecBuilder<Given<ChartData>, M, X>)
        ensures
            r.data_of() == Given(ChartData::Table(table)),
            r.mark_of() == self.mark_of(),
            r.x_of() == self.x_of(),
            r.same_options(self),
    {
        ChartSpecBuilder {
            data: Given(ChartData::Table(table)),
            mark: self.mark,
            x: self.x,
            y: self.y,
            color: self.color,
            size: self.size,
            config: self.config,
        }
    }
}

impl<D, X> ChartSpecBuilder<D, Missing, X> {
    /// Gives the mark.
    pub fn mark(self, mark: Mark) -> (r: ChartSpecBuilder<D, Given<Mark>, X>)
        ensures
            r.mark_of() == Given(mark),
            r.data_of() == self.data_of(),
            r.x_of() == self.x_of(),
            r.same_options(self),
    {
        ChartSpecBuilder {
            data: self.data,
            mark: Given(mark),
            x: self.x,
            y: self.y,
            color: self.color,
            size: self.size,
            config: self.config,
        }
    }
}

impl<D, M> ChartSpecBuilder<D, M, Missing> {
    /// Gives the `x` field.
    pub fn x(self, field: Field) -> (r: ChartSpecBuilder<D, M, Given<Field>>)
        ensures
            r.x_of() == Given(field),
            r.data_of() == self.data_of(),
            r.mark_of() == self.mark_of(),
            r.same_options(self),
    {
        ChartSpecBuilder {
            data: self.data,
            mark: self.mark,
            x: Given(field),
            y: self.y,
            color: self.color,
            size: self.size,
            config: self.config,
        }
    }
}

impl ChartSpecBuilder<Given<ChartData>, Given<Mark>, Given<Field>> {
    /// The specification of what was given.
    pub fn build(self) -> (r: ChartSpec)
        ensures
            r == (ChartSpec {
                data: self.data_of().0,
                mark: self.mark_of().0,
                x: self.x_of().0,
                y: self.y_of(),
                color: self.color_of(),
                size: self.size_of(),
                config: self.config_of(),
            }),
    {
        ChartSpec {
            data: self.data.0,
            mark: self.mark.0,
            x: self.x.0,
            y: self.y,
            color: self.color,
            size: self.size,
            config: self.config,
        }
    }
}

/// A copy of a field that may be missing.
fn copy_field(field: &Option<Field>) -> (r: Option<Field>)
    ensures
        r.is_some() == field.is_some(),
        r.is_some() ==> r.unwrap().name@ == field.unwrap().name@ && r.unwrap().data_type
            == field.unwrap().data_type,
{
    match field {
        Some(f) => Some(f.copy()),
        None => None,
    }
}

/// The series of points that a chart specification stands for.
///
/// Series of points stand for themselves. A table is turned into series by
/// the fields of the specification, and into none where the specification
/// has no `y` field. Bars over categories give no series.
pub fn resolve_dataset(spec: &ChartSpec) -> (r: Dataset)
    ensures
        match spec.data {
            ChartData::TimeSeries(ds) => ds.same_series(r),
            ChartData::Categorical(_) => r.series@.len() == 0,
            ChartData::Table(table) => match (spec.y, spec.color) {
                (None, _) => r.series@.len() == 0,
                (Some(y), Some(color)) => has_series(
                    r,
                    group_keys(table@, color.name@),
                    |g: int|
                        xy_points(
                            rows_with_key(table@, color.name@, group_keys(table@, color.name@)[g]),
                            spec.x.name@,
                            y.name@,
                        ),
                ),
                (Some(y), None) => has_series(
                    r,
                    seq!["default"@],
                    |g: int| xy_points(table@, spec.x.name@, y.name@),
                ),
            },
        },
{
    match &spec.data {
        ChartData::TimeSeries(ds) => ds.copy(),
        ChartData::Table(table) => {
            let y_field = match &spec.y {
                Some(y) => y.copy(),
                None => {
                    return Dataset::new();
                },
            };
            let enc = Encoding::new(spec.x.copy(), y_field).with_color_opt(
                copy_field(&spec.color),
            ).with_size_opt(copy_field(&spec.size));
            table.to_dataset(&enc)
        },
        ChartData::Categorical(_) => Dataset::new(),
    }
}

/// The bars that a chart specification stands for.
///
/// Bars over categories stand for themselves. A table is turned into bars
/// by the fields of the specification, and into none where the specification
/// has no `y` field. Series of points give no bars.
pub fn resolve_bar_dataset(spec: &ChartSpec) -> (r: BarDataset)
    ensures
        match spec.data {
            ChartData::Categorical(bars) => bars.same_bars(r),
            ChartData::TimeSeries(_) => r.categories@.len() == 0 && r.series@.len() == 0,
            ChartData::Table(table) => match (spec.y, spec.color) {
                (None, _) => r.categories@.len() == 0 && r.series@.len() == 0,
                (Some(y), Some(color)) => names(r.categories@) == distinct(
                    texts_of(table@, spec.x.name@),
                ) && has_bar_series(
                    r,
                    group_keys(table@, color.name@),
                    |g: int|
                        bar_values(
                            rows_with_key(table@, color.name@, group_keys(table@, color.name@)[g]),
                            spec.x.name@,
                            y.name@,
                            distinct(texts_of(table@, spec.x.name@)),
                        ),
                ),
                (Some(y), None) => names(r.categories@) == distinct(texts_of(table@, spec.x.name@))
                    && has_bar_series(
                    r,
                    seq!["default"@],
                    |g: int|
                        bar_values(
                            table@,
                            spec.x.name@,
                            y.name@,
                            distinct(texts_of(table@, spec.x.name@)),
                        ),
                ),
            },
        },
{
    match &spec.data {
        ChartData::Categorical(bars) => bars.copy(),
        ChartData::Table(table) => {
            let y_field = match &spec.y {
                Some(y) => y.copy(),
                None => {
                    return BarDataset::new(Vec::new());
                },
            };
            let enc = Encoding::new(spec.x.copy(), y_field).with_color_opt(copy_field(&spec.color));
            table.to_bar_dataset(&enc)
        },
        ChartData::TimeSeries(_) => BarDataset::new(Vec::new()),
    }
}

} // verus!

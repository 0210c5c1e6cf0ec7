//! Text that describes a chart to assistive technology.

use crate::model::data::DataPoint;
use crate::number::float::{Float, INFINITY_BITS, SIGN_BIT};
use crate::model::mark::Mark;
use crate::number::text::{decimal, decimal_digits};
use vstd::prelude::*;
use vstd::string::StringExecFns;

verus! {

/// What the caller wants announced about a chart.
#[derive(Debug, Clone)]
pub struct A11yConfig {
    pub label: Option<String>,
    pub description: Option<String>,
    pub live_region: bool,
}

impl Default for A11yConfig {
    fn default() -> (r: A11yConfig)
        ensures
            r.label.is_none(),
            r.description.is_none(),
            !r.live_region,
    {
        A11yConfig { label: None, description: None, live_region: false }
    }
}

/// The attributes to put on a chart's root element.
#[derive(Debug, Clone)]
pub struct A11yAttrs {
    pub role: &'static str,
    pub aria_label: String,
    pub description: String,
}

/// The word a description uses for a mark.
pub open spec fn mark_name(mark: Mark) -> Seq<char> {
    match mark {
        Mark::Line => "Line"@,
        Mark::Area => "Area"@,
        Mark::Bar => "Bar"@,
        Mark::Point => "Scatter"@,
        Mark::Circle => "Bubble"@,
    }
}

/// The sentence about one axis, or nothing where the axis has no label.
pub open spec fn axis_sentence(prefix: Seq<char>, label: Option<&str>) -> Seq<char> {
    match label {
        Some(l) => prefix + l@ + "."@,
        None => Seq::empty(),
    }
}

/// The description of a chart with the given mark, number of points and axis
/// labels.
pub open spec fn chart_description(
    mark: Mark,
    data_len: usize,
    x_label: Option<&str>,
    y_label: Option<&str>,
) -> Seq<char> {
    mark_name(mark) + " chart with "@ + decimal_digits(data_len as nat) + " data points."@
        + axis_sentence(" X axis: "@, x_label) + axis_sentence(" Y axis: "@, y_label)
}

/// One sentence on the kind and size of a chart, followed by one sentence
/// for each axis that has a label.
pub fn generate_chart_description(
    mark: Mark,
    data_len: usize,
    x_label: Option<&str>,
    y_label: Option<&str>,
) -> (desc: String)
    ensures
        desc@ == chart_description(mark, data_len, x_label, y_label),
{
    let mark_name = match mark {
        Mark::Line => "Line",
        Mark::Area => "Area",
        Mark::Bar => "Bar",
        Mark::Point => "Scatter",
        Mark::Circle => "Bubble",
    };
    let mut desc = mark_name.to_owned();
    desc.append(" chart with ");
    let count = decimal(data_len);
    desc.append(count.as_str());
    desc.append(" data points.");
    if let Some(x) = x_label {
        desc.append(" X axis: ");
        desc.append(x);
        desc.append(".");
    }
    if let Some(y) = y_label {
        desc.append(" Y axis: ");
        desc.append(y);
        desc.append(".");
    }
    assert(desc@ =~= chart_description(mark, data_len, x_label, y_label));
    desc
}

/// Positive infinity, above which no number lies.
pub open spec fn highest_number() -> Float {
    Float::from_bits(INFINITY_BITS)
}

/// Negative infinity, below which no number lies.
pub open spec fn lowest_number() -> Float {
    Float::from_bits((INFINITY_BITS + SIGN_BIT) as u64)
}

/// The smallest `x` of the points, and positive infinity without points. A
/// NaN is passed over.
pub open spec fn least_x(data: Seq<DataPoint>) -> Float
    decreases data.len(),
{
    if data.len() == 0 {
        highest_number()
    } else {
        least_x(data.drop_last()).spec_min(data.last().x)
    }
}

/// The largest `x` of the points, and negative infinity without points.
pub open spec fn greatest_x(data: Seq<DataPoint>) -> Float
    decreases data.len(),
{
    if data.len() == 0 {
        lowest_number()
    } else {
        greatest_x(data.drop_last()).spec_max(data.last().x)
    }
}

/// The smallest `y` of the points, and positive infinity without points.
pub open spec fn least_y(data: Seq<DataPoint>) -> Float
    decreases data.len(),
{
    if data.len() == 0 {
        highest_number()
    } else {
        least_y(data.drop_last()).spec_min(data.last().y)
    }
}

/// The largest `y` of the points, and negative infinity without points.
pub open spec fn greatest_y(data: Seq<DataPoint>) -> Float
    decreases data.len(),
{
    if data.len() == 0 {
        lowest_number()
    } else {
        greatest_y(data.drop_last()).spec_max(data.last().y)
    }
}

/// The sentence on the range of the points along both axes.
pub open spec fn range_summary(data: Seq<DataPoint>) -> Seq<char> {
    if data.len() == 0 {
        "No data points."@
    } else {
        "X range: "@ + least_x(data).spec_to_fixed() + " to "@ + greatest_x(data).spec_to_fixed()
            + ". Y range: "@ + least_y(data).spec_to_fixed() + " to "@ + greatest_y(
            data,
        ).spec_to_fixed() + "."@
    }
}

/// One sentence on the range of the points along both axes, with two
/// decimals, or on there being no points.
pub fn summarize_data_range(data: &[DataPoint]) -> (r: String)
    ensures
        r@ == range_summary(data@),
{
    let n = data.len();
    if n == 0 {
        return "No data points.".to_owned();
    }
    let mut x_min = Float::from_bits(INFINITY_BITS);
    let mut x_max = Float::from_bits(INFINITY_BITS + SIGN_BIT);
    let mut y_min = Float::from_bits(INFINITY_BITS);
    let mut y_max = Float::from_bits(INFINITY_BITS + SIGN_BIT);
    let mut i: usize = 0;
    while i < n
        invariant
            i <= n,
            n == data@.len(),
            x_min == least_x(data@.take(i as int)),
            x_max == greatest_x(data@.take(i as int)),
            y_min == least_y(data@.take(i as int)),
            y_max == greatest_y(data@.take(i as int)),
        decreases n - i,
    {
        assert(data@.take(i + 1).drop_last() =~= data@.take(i as int));
        x_min = x_min.min(data[i].x);
        x_max = x_max.max(data[i].x);
        y_min = y_min.min(data[i].y);
        y_max = y_max.max(data[i].y);
        i += 1;
    }
    assert(data@.take(n as int) =~= data@);
    let mut out = "X range: ".to_owned();
    out.append(x_min.to_fixed().as_str());
    out.append(" to ");
    out.append(x_max.to_fixed().as_str());
    out.append(". Y range: ");
    out.append(y_min.to_fixed().as_str());
    out.append(" to ");
    out.append(y_max.to_fixed().as_str());
    out.append(".");
    assert(out@ =~= range_summary(data@));
    out
}

/// The sentence on the point at position `index` of `total`.
pub open spec fn point_description(point: DataPoint, index: usize, total: usize) -> Seq<char> {
    "Point "@ + decimal_digits((index + 1) as nat) + " of "@ + decimal_digits(total as nat)
        + ": x = "@ + point.x.spec_to_fixed() + ", y = "@ + point.y.spec_to_fixed()
}

/// One sentence on a point: its place among `total` points, counted from 1,
/// and its coordinates with two decimals.
pub fn describe_point(point: &DataPoint, index: usize, total: usize) -> (r: String)
    requires
        index < usize::MAX,
    ensures
        r@ == point_description(*point, index, total),
{
    let mut out = "Point ".to_owned();
    out.append(decimal(index + 1).as_str());
    out.append(" of ");
    out.append(decimal(total).as_str());
    out.append(": x = ");
    out.append(point.x.to_fixed().as_str());
    out.append(", y = ");
    out.append(point.y.to_fixed().as_str());
    assert(out@ =~= point_description(*point, index, total));
    out
}

/// The description of the series called `name`.
pub open spec fn series_description(name: Seq<char>, data: Seq<DataPoint>) -> Seq<char> {
    if data.len() == 0 {
        "Series \""@ + name + "\" with no data points."@
    } else {
        "Series \""@ + name + "\" with "@ + decimal_digits(data.len()) + " data points. "@
            + range_summary(data)
    }
}

/// One sentence on the name and size of a series, followed by the sentence
/// on its range where it has points.
pub fn generate_series_description(name: &str, data: &[DataPoint]) -> (r: String)
    ensures
        r@ == series_description(name@, data@),
{
    let mut out = "Series \"".to_owned();
    out.append(name);
    if data.len() == 0 {
        out.append("\" with no data points.");
        assert(out@ =~= series_description(name@, data@));
        return out;
    }
    out.append("\" with ");
    out.append(decimal(data.len()).as_str());
    out.append(" data points. ");
    out.append(summarize_data_range(data).as_str());
    assert(out@ =~= series_description(name@, data@));
    out
}

} // verus!

//! Scales: maps between data values (the domain) and screen positions (the
//! range).

use crate::number::float::{Float, EPSILON_BITS, ONE_BITS, TEN_BITS, TWO_BITS, ZERO_BITS};
use crate::number::text::names;
use vstd::prelude::*;

verus! {

/// The position in `[to.0, to.1]` that `v` has in `[from.0, from.1]`, by
/// linear interpolation; `to.0` where `from` has no width.
pub open spec fn interpolate(v: Float, from: (Float, Float), to: (Float, Float)) -> Float {
    if from.1.spec_sub(from.0).spec_abs().spec_lt(Float::from_bits(EPSILON_BITS)) {
        to.0
    } else {
        to.0.spec_add(
            v.spec_sub(from.0).spec_div(from.1.spec_sub(from.0)).spec_mul(to.1.spec_sub(to.0)),
        )
    }
}

fn interpolated(v: Float, from: (Float, Float), to: (Float, Float)) -> (r: Float)
    ensures
        r == interpolate(v, from, to),
{
    let width = from.1.sub(from.0);
    if width.abs().lt(Float::from_bits(EPSILON_BITS)) {
        return to.0;
    }
    let normalized = v.sub(from.0).div(width);
    to.0.add(normalized.mul(to.1.sub(to.0)))
}

/// A map from a domain to a range and back.
pub trait Scale {
    /// The interval of data values.
    spec fn spec_domain(&self) -> (Float, Float);

    /// The interval of screen positions.
    spec fn spec_range(&self) -> (Float, Float);

    /// The position of `value`.
    spec fn spec_map(&self, value: Float) -> Float;

    /// The value at position `mapped`.
    spec fn spec_inverse(&self, mapped: Float) -> Float;

    /// The position of `value`.
    fn map(&self, value: Float) -> (r: Float)
        ensures
            r == self.spec_map(value),
    ;

    /// The value at position `mapped`.
    fn inverse(&self, mapped: Float) -> (r: Float)
        ensures
            r == self.spec_inverse(mapped),
    ;

    /// The interval of data values.
    fn domain(&self) -> (r: (Float, Float))
        ensures
            r == self.spec_domain(),
    ;

    /// The interval of screen positions.
    fn range(&self) -> (r: (Float, Float))
        ensures
            r == self.spec_range(),
    ;
}

/// A scale that maps its domain onto its range in proportion.
#[derive(Debug, Clone, Copy, PartialEq)]
pub struct LinearScale {
    domain: (Float, Float),
    range: (Float, Float),
}

impl LinearScale {
    /// The interval of data values.
    pub closed spec fn domain_of(&self) -> (Float, Float) {
        self.domain
    }

    /// The interval of screen positions.
    pub closed spec fn range_of(&self) -> (Float, Float) {
        self.range
    }

    /// A scale that maps `domain` onto `range`.
    pub fn new(domain: (Float, Float), range: (Float, Float)) -> (r: LinearScale)
        ensures
            r.domain_of() == domain,
            r.range_of() == range,
    {
        LinearScale { domain, range }
    }

    /// A scale from the four ends of its domain and range.
    pub fn from_extent(domain_min: Float, domain_max: Float, range_min: Float, range_max: Float) -> (r:
        LinearScale)
        ensures
            r.domain_of() == (domain_min, domain_max),
            r.range_of() == (range_min, range_max),
    {
        LinearScale::new((domain_min, domain_max), (range_min, range_max))
    }
}

impl Scale for LinearScale {
    open spec fn spec_domain(&self) -> (Float, Float) {
        self.domain_of()
    }

    open spec fn spec_range(&self) -> (Float, Float) {
        self.range_of()
    }

    /// `r0 + ((v - d0) / (d1 - d0)) * (r1 - r0)`, and `r0` for a domain
    /// without width.
    open spec fn spec_map(&self, value: Float) -> Float {
        interpolate(value, self.domain_of(), self.range_of())
    }

    /// `d0 + ((m - r0) / (r1 - r0)) * (d1 - d0)`, and `d0` for a range
    /// without width.
    open spec fn spec_inverse(&self, mapped: Float) -> Float {
        interpolate(mapped, self.range_of(), self.domain_of())
    }

    fn map(&self, value: Float) -> (r: Float) {
        interpolated(value, self.domain, self.range)
    }

    fn inverse(&self, mapped: Float) -> (r: Float) {
        interpolated(mapped, self.range, self.domain)
    }

    fn domain(&self) -> (r: (Float, Float)) {
        self.domain
    }

    fn range(&self) -> (r: (Float, Float)) {
        self.range
    }
}

/// A linear scale whose domain is a span of timestamps. It knows nothing of
/// calendars.
#[derive(Debug, Clone, Copy, PartialEq)]
pub struct TimeScale {
    domain: (Float, Float),
    range: (Float, Float),
}

impl TimeScale {
    /// The interval of data values.
    pub closed spec fn domain_of(&self) -> (Float, Float) {
        self.domain
    }

    /// The interval of screen positions.
    pub closed spec fn range_of(&self) -> (Float, Float) {
        self.range
    }

    /// A scale that maps the time span `domain` onto `range`.
    pub fn new(domain: (Float, Float), range: (Float, Float)) -> (r: TimeScale)
        ensures
            r.domain_of() == domain,
            r.range_of() == range,
    {
        TimeScale { domain, range }
    }
}

impl Scale for TimeScale {
    open spec fn spec_domain(&self) -> (Float, Float) {
        self.domain_of()
    }

    open spec fn spec_range(&self) -> (Float, Float) {
        self.range_of()
    }

    open spec fn spec_map(&self, value: Float) -> Float {
        interpolate(value, self.domain_of(), self.range_of())
    }

    open spec fn spec_inverse(&self, mapped: Float) -> Float {
        interpolate(mapped, self.range_of(), self.domain_of())
    }

    fn map(&self, value: Float) -> (r: Float) {
        interpolated(value, self.domain, self.range)
    }

    fn inverse(&self, mapped: Float) -> (r: Float) {
        interpolated(mapped, self.range, self.domain)
    }

    fn domain(&self) -> (r: (Float, Float)) {
        self.domain
    }

    fn range(&self) -> (r: (Float, Float)) {
        self.range
    }
}

/// A linear scale and a time scale over the same domain and range map alike.
pub proof fn lemma_time_scale_is_linear(time: TimeScale, linear: LinearScale, v: Float)
    requires
        time.domain_of() == linear.domain_of(),
        time.range_of() == linear.range_of(),
    ensures
        time.spec_map(v) == linear.spec_map(v),
        time.spec_inverse(v) == linear.spec_inverse(v),
{
}

/// A scale with a domain without width maps every value to the start of its
/// range, and one with a range without width maps every position back to the
/// start of its domain.
pub proof fn lemma_degenerate_linear_scale(scale: LinearScale, v: Float)
    ensures
        scale.domain_of().1.spec_sub(scale.domain_of().0).spec_abs().spec_lt(
            Float::from_bits(EPSILON_BITS),
        ) ==> scale.spec_map(v) == scale.range_of().0,
        scale.range_of().1.spec_sub(scale.range_of().0).spec_abs().spec_lt(
            Float::from_bits(EPSILON_BITS),
        ) ==> scale.spec_inverse(v) == scale.domain_of().0,
{
}

/// A scale that maps the logarithm of its domain onto its range in
/// proportion.
///
/// Besides mapping values itself, the scale maps values whose logarithms the
/// caller has at hand, which spares it taking them.
#[derive(Debug, Clone, Copy, PartialEq)]
pub struct LogScale {
    domain: (Float, Float),
    range: (Float, Float),
    base: Float,
}

/// Whether a logarithmic scale can be built from these: both ends of the
/// domain and the base are above zero, and the base is not 1.
pub open spec fn is_log_scale(domain: (Float, Float), base: Float) -> bool {
    &&& domain.0.spec_gt(Float::from_bits(ZERO_BITS))
    &&& domain.1.spec_gt(Float::from_bits(ZERO_BITS))
    &&& base.spec_gt(Float::from_bits(ZERO_BITS))
    &&& !base.spec_same(Float::from_bits(ONE_BITS))
}

impl LogScale {
    /// The interval of data values, both ends of which are above zero.
    pub closed spec fn domain_of(&self) -> (Float, Float) {
        self.domain
    }

    /// The interval of screen positions.
    pub closed spec fn range_of(&self) -> (Float, Float) {
        self.range
    }

    /// The base of the logarithm.
    pub closed spec fn base_of(&self) -> Float {
        self.base
    }

    /// Every scale that exists was built from a valid domain and base.
    #[verifier::type_invariant]
    closed spec fn valid(&self) -> bool {
        is_log_scale(self.domain, self.base)
    }

    /// A scale to base 10.
    pub fn new(domain: (Float, Float), range: (Float, Float)) -> (r: LogScale)
        requires
            domain.0.spec_gt(Float::from_bits(ZERO_BITS)),
            domain.1.spec_gt(Float::from_bits(ZERO_BITS)),
        ensures
            r.domain_of() == domain,
            r.range_of() == range,
            r.base_of() == Float::from_bits(TEN_BITS),
    {
        LogScale::with_base(domain, range, Float::from_bits(TEN_BITS))
    }

    /// A scale to the given base.
    pub fn with_base(domain: (Float, Float), range: (Float, Float), base: Float) -> (r: LogScale)
        requires
            is_log_scale(domain, base),
        ensures
            r.domain_of() == domain,
            r.range_of() == range,
            r.base_of() == base,
    {
        LogScale { domain, range, base }
    }

    /// A scale to the given base, or `None` where the domain or the base does
    /// not allow one.
    pub fn try_with_base(domain: (Float, Float), range: (Float, Float), base: Float) -> (r: Option<
        LogScale,
    >)
        ensures
            r.is_some() <==> is_log_scale(domain, base),
            r.is_some() ==> r.unwrap().domain_of() == domain && r.unwrap().range_of() == range
                && r.unwrap().base_of() == base,
    {
        let zero = Float::from_bits(ZERO_BITS);
        if domain.0.gt(zero) && domain.1.gt(zero) && base.gt(zero) && !base.same(
            Float::from_bits(ONE_BITS),
        ) {
            Some(LogScale::with_base(domain, range, base))
        } else {
            None
        }
    }

    /// The base of the logarithm. It is above zero and not 1, and both ends
    /// of the domain are above zero.
    pub fn base(&self) -> (r: Float)
        ensures
            r == self.base_of(),
            is_log_scale(self.domain_of(), r),
    {
        proof {
            use_type_invariant(self);
        }
        self.base
    }

    /// The position of `value`, whose logarithm to the base of the scale is
    /// `log_value`; `log_domain` holds the logarithms of the two ends of the
    /// domain. A value of zero or below is put at the start of the range.
    pub fn map_logs(&self, value: Float, log_value: Float, log_domain: (Float, Float)) -> (r: Float)
        ensures
            r == if value.spec_le(Float::from_bits(ZERO_BITS)) {
                self.range_of().0
            } else {
                self.range_of().0.spec_add(
                    log_value.spec_sub(log_domain.0).spec_div(
                        log_domain.1.spec_sub(log_domain.0),
                    ).spec_mul(self.range_of().1.spec_sub(self.range_of().0)),
                )
            },
    {
        let (r0, r1) = self.range;
        if value.le(Float::from_bits(ZERO_BITS)) {
            return r0;
        }
        let normalized = log_value.sub(log_domain.0).div(log_domain.1.sub(log_domain.0));
        r0.add(normalized.mul(r1.sub(r0)))
    }

    /// The logarithm of the value at position `mapped`; `log_domain` holds
    /// the logarithms of the two ends of the domain. The value itself is the
    /// base of the scale raised to the result.
    pub fn inverse_log(&self, mapped: Float, log_domain: (Float, Float)) -> (r: Float)
        ensures
            r == log_domain.0.spec_add(
                mapped.spec_sub(self.range_of().0).spec_div(
                    self.range_of().1.spec_sub(self.range_of().0),
                ).spec_mul(log_domain.1.spec_sub(log_domain.0)),
            ),
    {
        let (r0, r1) = self.range;
        let normalized = mapped.sub(r0).div(r1.sub(r0));
        log_domain.0.add(normalized.mul(log_domain.1.sub(log_domain.0)))
    }
}

impl LogScale {
    /// The logarithms of the two ends of the domain, to the base of the
    /// scale.
    pub open spec fn log_domain(&self) -> (Float, Float) {
        (self.domain_of().0.spec_log(self.base_of()), self.domain_of().1.spec_log(self.base_of()))
    }

    fn logs(&self) -> (r: (Float, Float))
        ensures
            r == self.log_domain(),
    {
        (self.domain.0.log(self.base), self.domain.1.log(self.base))
    }
}

impl Scale for LogScale {
    open spec fn spec_domain(&self) -> (Float, Float) {
        self.domain_of()
    }

    open spec fn spec_range(&self) -> (Float, Float) {
        self.range_of()
    }

    /// The position that the logarithm of `value` has between those of the
    /// two ends of the domain, brought into the range; the start of the
    /// range for a value of zero or below.
    open spec fn spec_map(&self, value: Float) -> Float {
        if value.spec_le(Float::from_bits(ZERO_BITS)) {
            self.range_of().0
        } else {
            self.range_of().0.spec_add(
                value.spec_log(self.base_of()).spec_sub(self.log_domain().0).spec_div(
                    self.log_domain().1.spec_sub(self.log_domain().0),
                ).spec_mul(self.range_of().1.spec_sub(self.range_of().0)),
            )
        }
    }

    /// The base of the scale to the power that the position `mapped` stands
    /// for between the logarithms of the two ends of the domain.
    open spec fn spec_inverse(&self, mapped: Float) -> Float {
        self.base_of().spec_powf(
            self.log_domain().0.spec_add(
                mapped.spec_sub(self.range_of().0).spec_div(
                    self.range_of().1.spec_sub(self.range_of().0),
                ).spec_mul(self.log_domain().1.spec_sub(self.log_domain().0)),
            ),
        )
    }

    fn map(&self, value: Float) -> (r: Float) {
        if value.le(Float::from_bits(ZERO_BITS)) {
            return self.range.0;
        }
        self.map_logs(value, value.log(self.base), self.logs())
    }

    fn inverse(&self, mapped: Float) -> (r: Float) {
        self.base.powf(self.inverse_log(mapped, self.logs()))
    }

    fn domain(&self) -> (r: (Float, Float)) {
        self.domain
    }

    fn range(&self) -> (r: (Float, Float)) {
        self.range
    }
}

/// A scale that gives each of a list of categories a band of equal width
/// within a range, with a share of each band kept free as a gutter.
#[derive(Debug, Clone, PartialEq)]
pub struct BandScale {
    categories: Vec<String>,
    range_start: Float,
    range_end: Float,
    padding: Float,
}

impl BandScale {
    /// The categories, in order.
    pub closed spec fn categories_of(&self) -> Seq<String> {
        self.categories@
    }

    /// The interval of screen positions.
    pub closed spec fn range_of(&self) -> (Float, Float) {
        (self.range_start, self.range_end)
    }

    /// The share of each step that is kept free, between 0 and 1.
    pub closed spec fn padding_of(&self) -> Float {
        self.padding
    }

    /// The distance from the start of one band to the start of the next: the
    /// width of the range over the number of categories, and 0 without
    /// categories.
    pub open spec fn spec_step(&self) -> Float {
        if self.categories_of().len() == 0 {
            Float::from_bits(ZERO_BITS)
        } else {
            self.range_of().1.spec_sub(self.range_of().0).spec_abs().spec_div(
                Float::spec_from_usize(self.categories_of().len() as usize),
            )
        }
    }

    /// The width of one band: the step less its gutter.
    pub open spec fn spec_band_width(&self) -> Float {
        self.spec_step().spec_mul(Float::from_bits(ONE_BITS).spec_sub(self.padding_of()))
    }

    /// Where the band of the category at `idx` starts: `idx` steps and half
    /// a gutter from the start of the range.
    pub open spec fn spec_map_index(&self, idx: usize) -> Float {
        self.range_of().0.spec_add(Float::spec_from_usize(idx).spec_mul(self.spec_step())).spec_add(
            self.spec_step().spec_mul(self.padding_of()).spec_div(Float::from_bits(TWO_BITS)),
        )
    }

    /// A scale for the given categories over the given range. `padding` is
    /// moved into `[0, 1]`.
    pub fn new(categories: Vec<String>, range: (Float, Float), padding: Float) -> (r: BandScale)
        ensures
            r.categories_of() == categories@,
            r.range_of() == range,
            r.padding_of() == padding.spec_clamp(
                Float::from_bits(ZERO_BITS),
                Float::from_bits(ONE_BITS),
            ),
    {
        let padding = padding.clamp(Float::from_bits(ZERO_BITS), Float::from_bits(ONE_BITS));
        BandScale { categories, range_start: range.0, range_end: range.1, padding }
    }

    /// The distance from the start of one band to the start of the next.
    #[verifier::when_used_as_spec(spec_step)]
    pub fn step(&self) -> (r: Float)
        ensures
            r == self.spec_step(),
    {
        if self.categories.len() == 0 {
            return Float::from_bits(ZERO_BITS);
        }
        let range_width = self.range_end.sub(self.range_start).abs();
        range_width.div(Float::from_usize(self.categories.len()))
    }

    /// The width of one band.
    #[verifier::when_used_as_spec(spec_band_width)]
    pub fn band_width(&self) -> (r: Float)
        ensures
            r == self.spec_band_width(),
    {
        self.step().mul(Float::from_bits(ONE_BITS).sub(self.padding))
    }

    /// Where the band of the first category called `name` starts, or `None`
    /// where no category has that name.
    pub fn map_category(&self, name: &str) -> (r: Option<Float>)
        ensures
            r.is_none() <==> !names(self.categories_of()).contains(name@),
            r.is_some() ==> exists|i: int|
                0 <= i < self.categories_of().len() && names(self.categories_of())[i] == name@
                    && r.unwrap() == self.spec_map_index(i as usize) && forall|k: int|
                    0 <= k < i ==> names(self.categories_of())[k] != name@,
    {
        let wanted = name.to_owned();
        let n = self.categories.len();
        let mut i: usize = 0;
        while i < n
            invariant
                i <= n,
                n == self.categories@.len(),
                wanted@ == name@,
                forall|k: int| 0 <= k < i ==> names(self.categories@)[k] != name@,
            decreases n - i,
        {
            assert(names(self.categories@)[i as int] == self.categories@[i as int]@);
            if self.categories[i] == wanted {
                return Some(self.map_index(i));
            }
            i += 1;
        }
        None
    }

    /// Where the band of the category at `idx` starts.
    #[verifier::when_used_as_spec(spec_map_index)]
    pub fn map_index(&self, idx: usize) -> (r: Float)
        ensures
            r == self.spec_map_index(idx),
    {
        let step = self.step();
        let pad_offset = step.mul(self.padding).div(Float::from_bits(TWO_BITS));
        self.range_start.add(Float::from_usize(idx).mul(step)).add(pad_offset)
    }

    /// The middle of the band of the category at `idx`: half a band width
    /// after its start.
    pub open spec fn spec_map_index_center(&self, idx: usize) -> Float {
        self.spec_map_index(idx).spec_add(
            self.spec_band_width().spec_div(Float::from_bits(TWO_BITS)),
        )
    }

    /// The middle of the band of the category at `idx`.
    #[verifier::when_used_as_spec(spec_map_index_center)]
    pub fn map_index_center(&self, idx: usize) -> (r: Float)
        ensures
            r == self.spec_map_index_center(idx),
    {
        self.map_index(idx).add(self.band_width().div(Float::from_bits(TWO_BITS)))
    }

    /// The number of categories.
    pub fn len(&self) -> (r: usize)
        ensures
            r == self.categories_of().len(),
    {
        self.categories.len()
    }

    /// Whether there are no categories.
    pub fn is_empty(&self) -> (r: bool)
        ensures
            r == (self.categories_of().len() == 0),
    {
        self.categories.len() == 0
    }

    /// The categories, in order.
    pub fn categories(&self) -> (r: &[String])
        ensures
            r@ == self.categories_of(),
    {
        self.categories.as_slice()
    }

    /// The interval of screen positions.
    pub fn range(&self) -> (r: (Float, Float))
        ensures
            r == self.range_of(),
    {
        (self.range_start, self.range_end)
    }
}

} // verus!

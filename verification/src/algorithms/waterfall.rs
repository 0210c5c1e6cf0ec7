//! Waterfall layout: how far each bar of a waterfall chart reaches.

use crate::model::data::{WaterfallBar, WaterfallKind};
use crate::number::float::{Float, ZERO_BITS};
use vstd::prelude::*;

verus! {

/// The extent of one bar of a waterfall chart: from `baseline` up to `top`.
#[derive(Debug, Clone, Copy, PartialEq)]
pub struct WaterfallSpan {
    pub baseline: Float,
    pub top: Float,
}

/// The running total after the bars: zero before any bar; a start bar sets
/// it to its value, a delta bar adds its value to it, and a total bar leaves
/// it as it is.
pub open spec fn running_total(bars: Seq<WaterfallBar>) -> Float
    decreases bars.len(),
{
    if bars.len() == 0 {
        Float::from_bits(ZERO_BITS)
    } else {
        match bars.last().kind {
            WaterfallKind::Start => bars.last().value,
            WaterfallKind::Delta => running_total(bars.drop_last()).spec_add(bars.last().value),
            WaterfallKind::Total => running_total(bars.drop_last()),
        }
    }
}

/// The extent of bar `i`. A start bar reaches from zero to its value, and a
/// total bar from zero to the running total. A delta bar reaches from the
/// running total before it to the one after it, the smaller of the two
/// below.
pub open spec fn span_of(bars: Seq<WaterfallBar>, i: int) -> WaterfallSpan {
    let zero = Float::from_bits(ZERO_BITS);
    let before = running_total(bars.take(i));
    let after = running_total(bars.take(i + 1));
    match bars[i].kind {
        WaterfallKind::Start => WaterfallSpan { baseline: zero, top: bars[i].value },
        WaterfallKind::Delta => if bars[i].value.spec_ge(zero) {
            WaterfallSpan { baseline: before, top: after }
        } else {
            WaterfallSpan { baseline: after, top: before }
        },
        WaterfallKind::Total => WaterfallSpan { baseline: zero, top: before },
    }
}

/// The extents of the bars of a waterfall chart, in order.
pub fn waterfall_spans(bars: &[WaterfallBar]) -> (r: Vec<WaterfallSpan>)
    ensures
        r@.len() == bars@.len(),
        forall|i: int| 0 <= i < bars@.len() ==> #[trigger] r@[i] == span_of(bars@, i),
{
    let zero = Float::from_bits(ZERO_BITS);
    let n = bars.len();
    let mut out: Vec<WaterfallSpan> = Vec::new();
    let mut running = zero;
    let mut i: usize = 0;
    while i < n
        invariant
            i <= n,
            n == bars@.len(),
            zero == Float::from_bits(ZERO_BITS),
            running == running_total(bars@.take(i as int)),
            out@.len() == i,
            forall|k: int| 0 <= k < i ==> #[trigger] out@[k] == span_of(bars@, k),
        decreases n - i,
    {
        assert(bars@.take(i + 1).drop_last() =~= bars@.take(i as int));
        assert(bars@.take(i + 1).last() == bars@[i as int]);
        let value = bars[i].value;
        match bars[i].kind {
            WaterfallKind::Start => {
                running = value;
                out.push(WaterfallSpan { baseline: zero, top: value });
            },
            WaterfallKind::Delta => {
                let base = running;
                running = running.add(value);
                if value.ge(zero) {
                    out.push(WaterfallSpan { baseline: base, top: running });
                } else {
                    out.push(WaterfallSpan { baseline: running, top: base });
                }
            },
            WaterfallKind::Total => {
                out.push(WaterfallSpan { baseline: zero, top: running });
            },
        }
        i += 1;
    }
    out
}

} // verus!

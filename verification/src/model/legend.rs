//! The legend of a chart: one entry per series.

use crate::number::float::{Float, TEN_BITS, TWO_BITS};
use vstd::prelude::*;
use vstd::string::StringSliceAdditionalSpecFns;

verus! {

/// Bit pattern of 6: the gap between swatch and name, and the padding on
/// either side, in pixels.
pub const SIX_BITS: u64 = 0x4018_0000_0000_0000;

/// Bit pattern of 6.5, the width that a character of a name is taken to
/// have, in pixels.
pub const CHARACTER_WIDTH_BITS: u64 = 0x401a_0000_0000_0000;

/// The length that names are taken to have where there are none.
pub const DEFAULT_NAME_LENGTH: usize = 4;

/// One entry of a legend.
#[derive(Debug, Clone, PartialEq)]
pub struct LegendItem {
    pub name: String,
    pub color: String,
    pub visible: bool,
}

/// Where the legend stands.
#[derive(Debug, Clone, Copy, PartialEq, Eq, Structural)]
pub enum LegendPosition {
    /// Over the plot, in its top right corner.
    TopRight,
    /// Over the plot, in its top left corner.
    TopLeft,
    /// Over the plot, in its bottom right corner.
    BottomRight,
    /// Over the plot, in its bottom left corner.
    BottomLeft,
    /// Beside the plot, to its right.
    ExternalRight,
}

impl Default for LegendPosition {
    fn default() -> (r: LegendPosition)
        ensures
            r == LegendPosition::TopRight,
    {
        LegendPosition::TopRight
    }
}

/// The length in bytes of the longest name.
pub open spec fn longest_name(items: Seq<LegendItem>) -> usize
    decreases items.len(),
{
    if items.len() == 0 {
        0
    } else {
        let rest = longest_name(items.drop_last());
        let last = vstd::utf8::encode_utf8(items.last().name@).len() as usize;
        if last > rest {
            last
        } else {
            rest
        }
    }
}

/// The width of a legend whose longest name has `length` bytes: a swatch of
/// 10 pixels, a gap of 6, 6.5 for each byte, and a padding of 6 on either
/// side.
pub open spec fn legend_width(length: usize) -> Float {
    Float::from_bits(TEN_BITS).spec_add(Float::from_bits(SIX_BITS)).spec_add(
        Float::spec_from_usize(length).spec_mul(Float::from_bits(CHARACTER_WIDTH_BITS)),
    ).spec_add(Float::from_bits(SIX_BITS).spec_mul(Float::from_bits(TWO_BITS)))
}

/// The width in pixels that a legend of one column needs, by its longest
/// name; without entries, as much as names of four characters need.
pub fn estimate_legend_width(items: &[LegendItem]) -> (r: Float)
    ensures
        r == legend_width(
            if items@.len() == 0 {
                DEFAULT_NAME_LENGTH
            } else {
                longest_name(items@)
            },
        ),
{
    let n = items.len();
    let mut longest: usize = 0;
    let mut i: usize = 0;
    while i < n
        invariant
            i <= n,
            n == items@.len(),
            longest == longest_name(items@.take(i as int)),
        decreases n - i,
    {
        assert(items@.take(i + 1).drop_last() =~= items@.take(i as int));
        assert(items@.take(i + 1).last() == items@[i as int]);
        let length = items[i].name.as_str().len();
        if length > longest {
            longest = length;
        }
        i += 1;
    }
    assert(items@.take(n as int) =~= items@);
    let length = if n == 0 {
        DEFAULT_NAME_LENGTH
    } else {
        longest
    };
    Float::from_bits(TEN_BITS).add(Float::from_bits(SIX_BITS)).add(
        Float::from_usize(length).mul(Float::from_bits(CHARACTER_WIDTH_BITS)),
    ).add(Float::from_bits(SIX_BITS).mul(Float::from_bits(TWO_BITS)))
}

} // verus!

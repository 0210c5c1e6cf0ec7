use lodviz_core::algorithms::waterfall::{waterfall_spans, WaterfallSpan};
use lodviz_core::model::data::WaterfallBar;
use lodviz_core::number::float::Float;

fn fl(x: f64) -> Float {
    Float::from_bits(x.to_bits())
}

fn span(baseline: f64, top: f64) -> WaterfallSpan {
    WaterfallSpan { baseline: fl(baseline), top: fl(top) }
}

#[test]
fn test_waterfall_running_total() {
    let bars = vec![
        WaterfallBar::start("Opening", fl(100.0)),
        WaterfallBar::delta("Sales", fl(40.0)),
        WaterfallBar::delta("Costs", fl(-60.0)),
        WaterfallBar::total("Subtotal", fl(999.0)),
        WaterfallBar::delta("Tax", fl(-10.0)),
        WaterfallBar::start("Restart", fl(5.0)),
        WaterfallBar::total("Closing", fl(0.0)),
    ];
    assert_eq!(
        waterfall_spans(&bars),
        vec![
            span(0.0, 100.0),
            span(100.0, 140.0),
            span(80.0, 140.0),
            span(0.0, 80.0),
            span(70.0, 80.0),
            span(0.0, 5.0),
            span(0.0, 5.0),
        ]
    );
    assert!(waterfall_spans(&[]).is_empty());
    assert_eq!(waterfall_spans(&[WaterfallBar::delta("only", fl(-3.0))]), vec![span(-3.0, 0.0)]);
}

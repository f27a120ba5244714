use hwp_core::document::chart_data::{split_chart_data, AxisTickStyle, ChartType, VtColor};

#[test]
fn test_chart_type_conversion() {
    assert_eq!(ChartType::from(0), ChartType::Bar3D);
    assert_eq!(ChartType::from(1), ChartType::Bar2D);
    assert_eq!(ChartType::from(3), ChartType::Line2D);
    assert_eq!(ChartType::from(14), ChartType::Pie2D);
    assert_eq!(ChartType::from(99), ChartType::Unknown);
}

#[test]
fn test_axis_tick_style_conversion() {
    assert_eq!(AxisTickStyle::from(0), AxisTickStyle::NoTicks);
    assert_eq!(AxisTickStyle::from(1), AxisTickStyle::Center);
    assert_eq!(AxisTickStyle::from(2), AxisTickStyle::Inside);
    assert_eq!(AxisTickStyle::from(3), AxisTickStyle::Outside);
}

#[test]
fn test_vt_color_from_colorref() {
    let color = VtColor::from_colorref(0x00FF8040);
    assert_eq!(color.red, 0x40);
    assert_eq!(color.green, 0x80);
    assert_eq!(color.blue, 0xFF);
}

#[test]
fn test_parse_empty_data() {
    let rest = split_chart_data(&[]);
    assert!(rest.is_none());
}

#[test]
fn test_parse_small_data() {
    let data = vec![0x01, 0x02, 0x03, 0x04];
    let rest = split_chart_data(&data);
    assert!(rest.is_none());
    assert!(!data.is_empty());
}

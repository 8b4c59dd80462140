use craft3d::normalize::{
    dimension_to_host, get_available_space, get_dimension, get_i32,
    get_length_percentage_auto_dimension, get_length_percentage_dimension, get_size_dimension,
    get_units, lp_to_host, lpa_to_host, parse_style, HostValue, RawStyle,
};
use craft3d::style::{
    AvailableSpace, Dimension, Display, FlexDirection, LengthPercentage, LengthPercentageAuto,
    Overflow,
};

fn text(s: &str) -> Option<HostValue> {
    Some(HostValue::Text(s.to_string()))
}

fn num(v: i64) -> Option<HostValue> {
    Some(HostValue::Number(v))
}

#[test]
fn percent_parsing() {
    // "50%" is half, stored on the fixed-point scale.
    assert_eq!(get_dimension(&text("50%")), Dimension::Percent(500));
    assert_eq!(get_dimension(&text("0%")), Dimension::Percent(0));
    // A malformed numeric prefix falls back to the field default, with no
    // partial parse.
    assert_eq!(get_dimension(&text("abc%")), Dimension::Auto);
}

#[test]
fn dimension_forms() {
    assert_eq!(get_dimension(&num(100_000)), Dimension::Length(100_000));
    assert_eq!(get_dimension(&text("auto")), Dimension::Auto);
    assert_eq!(get_dimension(&text("25")), Dimension::Length(25_000));
    assert_eq!(get_dimension(&text("nonsense")), Dimension::Auto);
    assert_eq!(get_dimension(&None), Dimension::Auto);
    assert_eq!(get_dimension(&Some(HostValue::Other)), Dimension::Auto);
    assert_eq!(get_size_dimension(&text("50%")), Dimension::Percent(500));
}

#[test]
fn inset_and_margin_defaults() {
    // Insets fall back to automatic, margins to zero length.
    assert_eq!(
        get_length_percentage_auto_dimension(&None, LengthPercentageAuto::Auto),
        LengthPercentageAuto::Auto
    );
    assert_eq!(
        get_length_percentage_auto_dimension(&None, LengthPercentageAuto::Length(0)),
        LengthPercentageAuto::Length(0)
    );
    assert_eq!(
        get_length_percentage_auto_dimension(&text("auto"), LengthPercentageAuto::Length(0)),
        LengthPercentageAuto::Auto
    );
    assert_eq!(
        get_length_percentage_auto_dimension(&text("12.5"), LengthPercentageAuto::Auto),
        LengthPercentageAuto::Length(12_500)
    );
    assert_eq!(
        get_length_percentage_auto_dimension(&text("75%"), LengthPercentageAuto::Auto),
        LengthPercentageAuto::Percent(750)
    );
}

#[test]
fn spacing_values() {
    assert_eq!(
        get_length_percentage_dimension(&num(4_000)),
        LengthPercentage::Length(4_000)
    );
    // Spacing fields do not recognize the automatic keyword.
    assert_eq!(
        get_length_percentage_dimension(&text("auto")),
        LengthPercentage::Length(0)
    );
    assert_eq!(
        get_length_percentage_dimension(&text("10%")),
        LengthPercentage::Percent(100)
    );
    assert_eq!(get_length_percentage_dimension(&None), LengthPercentage::Length(0));
}

#[test]
fn available_space_forms() {
    assert_eq!(get_available_space(&text("min")), AvailableSpace::MinContent);
    assert_eq!(
        get_available_space(&text("minContent")),
        AvailableSpace::MinContent
    );
    assert_eq!(get_available_space(&text("max")), AvailableSpace::MaxContent);
    assert_eq!(
        get_available_space(&text("maxContent")),
        AvailableSpace::MaxContent
    );
    assert_eq!(
        get_available_space(&num(640_000)),
        AvailableSpace::Definite(640_000)
    );
    assert_eq!(
        get_available_space(&text("640")),
        AvailableSpace::Definite(640_000)
    );
    assert_eq!(get_available_space(&None), AvailableSpace::Definite(0));
    assert_eq!(
        get_available_space(&text("woods")),
        AvailableSpace::Definite(0)
    );
}

#[test]
fn selector_codes() {
    assert_eq!(get_i32(&num(2_000)), Some(2));
    assert_eq!(get_i32(&num(2_900)), Some(2));
    assert_eq!(get_i32(&num(-2_900)), Some(-2));
    assert_eq!(get_i32(&text("2")), None);
    assert_eq!(get_i32(&None), None);
    assert_eq!(get_i32(&num(i64::MAX)), Some(i32::MAX));
    assert_eq!(get_i32(&num(i64::MIN)), Some(i32::MIN));
    assert_eq!(get_units(&num(77)), Some(77));
    assert_eq!(get_units(&text("77")), None);
}

#[test]
fn style_object_normalization() {
    let mut raw = RawStyle::empty();
    raw.width = text("50%");
    raw.height = text("auto");
    raw.display = num(1_000);
    raw.flex_direction = num(1_000);
    raw.margin_left = text("4");
    raw.overflow_x = num(2_000);
    let style = parse_style(&raw);
    assert_eq!(style.size.width, Dimension::Percent(500));
    assert_eq!(style.size.height, Dimension::Auto);
    assert_eq!(style.display, Display::Grid);
    assert_eq!(style.flex_direction, FlexDirection::Column);
    assert_eq!(style.margin.left, LengthPercentageAuto::Length(4_000));
    assert_eq!(style.margin.right, LengthPercentageAuto::Length(0));
    assert_eq!(style.inset.left, LengthPercentageAuto::Auto);
    assert_eq!(style.overflow.x, Overflow::Scroll);
    assert_eq!(style.overflow.y, Overflow::Visible);
    assert_eq!(style.flex_grow, 0);
    assert_eq!(style.flex_shrink, 1000);
    assert_eq!(style.scrollbar_width, 1_024_000);
}

#[test]
fn normalization_round_trips() {
    for d in [
        Dimension::Length(100_000),
        Dimension::Length(-4_500),
        Dimension::Percent(500),
        Dimension::Percent(0),
        Dimension::Percent(-250),
        Dimension::Auto,
    ] {
        assert_eq!(get_dimension(&Some(dimension_to_host(d))), d);
    }
    for d in [
        LengthPercentageAuto::Length(12_000),
        LengthPercentageAuto::Percent(750),
        LengthPercentageAuto::Auto,
    ] {
        assert_eq!(
            get_length_percentage_auto_dimension(
                &Some(lpa_to_host(d, LengthPercentageAuto::Length(0))),
                LengthPercentageAuto::Length(0)
            ),
            d
        );
    }
    for d in [
        LengthPercentage::Length(12_000),
        LengthPercentage::Percent(750),
    ] {
        assert_eq!(get_length_percentage_dimension(&Some(lp_to_host(d))), d);
    }
}

use craft3d::geometry::{Point, Rect, Size};
use craft3d::style::{
    AlignContent, AlignItems, AlignSelf, Dimension, Display, FlexDirection, FlexWrap,
    LengthPercentage, LengthPercentageAuto, Overflow, Position, Style,
};

#[test]
fn defaults_match() {
    let old_defaults = Style {
        display: Default::default(),
        overflow: Point {
            x: Default::default(),
            y: Default::default(),
        },
        scrollbar_width: 0,
        position: Default::default(),
        flex_direction: Default::default(),
        flex_wrap: Default::default(),
        align_items: Default::default(),
        align_self: Default::default(),
        justify_items: Default::default(),
        justify_self: Default::default(),
        align_content: Default::default(),
        justify_content: Default::default(),
        inset: Rect::splat(LengthPercentageAuto::Auto),
        margin: Rect::splat(LengthPercentageAuto::Length(0)),
        padding: Rect::splat(LengthPercentage::Length(0)),
        border: Rect::splat(LengthPercentage::Length(0)),
        gap: Size::splat(LengthPercentage::Length(0)),
        flex_grow: 0,
        flex_shrink: 1000,
        flex_basis: Dimension::Auto,
        size: Size::splat(Dimension::Auto),
        min_size: Size::splat(Dimension::Auto),
        max_size: Size::splat(Dimension::Auto),
        aspect_ratio: Default::default(),
    };

    assert_eq!(Style::base(), Style::default());
    assert_eq!(Style::base(), old_defaults);
}

#[test]
fn display_codes() {
    assert_eq!(Display::from_code(0), Display::Flex);
    assert_eq!(Display::from_code(1), Display::Grid);
    assert_eq!(Display::from_code(2), Display::Off);
    assert_eq!(Display::from_code(7), Display::Flex);
    assert_eq!(Display::from_code(-1), Display::Flex);
}

#[test]
fn position_codes() {
    assert_eq!(Position::from_code(0), Position::Relative);
    assert_eq!(Position::from_code(1), Position::Absolute);
    assert_eq!(Position::from_code(9), Position::Relative);
}

#[test]
fn overflow_codes_and_containment() {
    assert_eq!(Overflow::from_code(0), Overflow::Visible);
    assert_eq!(Overflow::from_code(1), Overflow::Hidden);
    assert_eq!(Overflow::from_code(2), Overflow::Scroll);
    assert_eq!(Overflow::from_code(3), Overflow::Clip);
    assert_eq!(Overflow::from_code(42), Overflow::Visible);

    assert!(Overflow::Hidden.is_scroll_container());
    assert!(Overflow::Scroll.is_scroll_container());
    assert!(!Overflow::Visible.is_scroll_container());
    assert!(!Overflow::Clip.is_scroll_container());

    assert_eq!(Overflow::Scroll.maybe_into_automatic_min_size(), Some(0));
    assert_eq!(Overflow::Visible.maybe_into_automatic_min_size(), None);
}

#[test]
fn flex_direction_codes() {
    assert_eq!(FlexDirection::from_code(0), FlexDirection::Row);
    assert_eq!(FlexDirection::from_code(1), FlexDirection::Column);
    assert_eq!(FlexDirection::from_code(2), FlexDirection::RowReverse);
    assert_eq!(FlexDirection::from_code(3), FlexDirection::ColumnReverse);
    assert_eq!(FlexDirection::from_code(4), FlexDirection::Depth);
    assert_eq!(FlexDirection::from_code(5), FlexDirection::DepthReverse);
    assert_eq!(FlexDirection::from_code(6), FlexDirection::Row);
}

#[test]
fn flex_wrap_codes() {
    assert_eq!(FlexWrap::from_code(0), FlexWrap::NoWrap);
    assert_eq!(FlexWrap::from_code(1), FlexWrap::Wrap);
    assert_eq!(FlexWrap::from_code(2), FlexWrap::WrapReverse);
    assert_eq!(FlexWrap::from_code(-3), FlexWrap::NoWrap);
}

#[test]
fn alignment_codes() {
    assert_eq!(AlignItems::from_code(0), AlignItems::Start);
    assert_eq!(AlignItems::from_code(5), AlignItems::Baseline);
    assert_eq!(AlignItems::from_code(6), AlignItems::Stretch);
    assert_eq!(AlignItems::from_code(99), AlignItems::Start);

    assert_eq!(AlignSelf::from_code(0), AlignSelf::Start);
    assert_eq!(AlignSelf::from_code(1), AlignSelf::End);
    assert_eq!(AlignSelf::from_code(2), AlignSelf::Center);
    assert_eq!(AlignSelf::from_code(3), AlignSelf::Start);

    assert_eq!(AlignContent::from_code(6), AlignContent::SpaceBetween);
    assert_eq!(AlignContent::from_code(7), AlignContent::SpaceEvenly);
    assert_eq!(AlignContent::from_code(8), AlignContent::SpaceAround);
    assert_eq!(AlignContent::from_code(100), AlignContent::Start);
}

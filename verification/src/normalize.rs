//! Normalization of loosely-typed host style input into the typed model.
//!
//! A host hands each style field as a number, a piece of text, or something
//! else entirely. Normalization is a pure function of that value: numbers
//! become lengths, `"auto"` becomes `Auto` where the field supports it,
//! `"N%"` becomes a percentage fraction, plain numeric text becomes a
//! length, and anything else falls back to a per-field default. Malformed
//! input never raises an error: it degrades to the default.

use crate::parse::{digit_run_len, is_digit, lemma_digit_run_props, lemma_parse_units_spec_bound,
    number_wf, parse_units, parse_units_spec, units_to_text};
use crate::geometry::{Point, Rect, Size};
use crate::style::{AlignContent, AlignItems, AlignSelf, AvailableSpace, Dimension, Display,
    FlexDirection, FlexWrap, LengthPercentage, LengthPercentageAuto, Overflow, Position, Style};
use vstd::prelude::*;

verus! {

/// One loosely-typed host value for a single style field. Numbers arrive
/// already scaled to fixed-point units; text arrives verbatim; anything
/// the host adapter cannot read as either is `Other`.
#[derive(Clone, Debug)]
pub enum HostValue {
    /// A numeric host value, in fixed-point units.
    Number(i64),
    /// A textual host value.
    Text(String),
    /// A host value of any other shape.
    Other,
}

/// The magnitude-truncating quotient of `n` by a hundred, used to turn a
/// percentage count into a fraction on the fixed-point scale.
pub open spec fn percent_fraction(n: int) -> int {
    if n >= 0 {
        n / 100
    } else {
        -((-n) / 100)
    }
}

/// The magnitude-truncating quotient of `n` by a thousand: the whole
/// number of units a fixed-point value holds.
pub open spec fn whole_units(n: int) -> int {
    if n >= 0 {
        n / 1000
    } else {
        -((-n) / 1000)
    }
}

/// `x` clamped into the range of `i32`.
pub open spec fn clamp_to_i32(x: int) -> int {
    if x > i32::MAX {
        i32::MAX as int
    } else if x < i32::MIN {
        i32::MIN as int
    } else {
        x
    }
}

/// What a textual field value denotes as a sizing dimension: `"auto"`,
/// then numeric text, then a percentage, and `Auto` as the fallback.
pub open spec fn text_dimension(s: Seq<char>) -> Dimension {
    if s == "auto"@ {
        Dimension::Auto
    } else if parse_units_spec(s) is Some {
        Dimension::Length(parse_units_spec(s)->0 as i64)
    } else if s.len() > 0 && s.last() == '%' && parse_units_spec(s.drop_last()) is Some {
        Dimension::Percent(percent_fraction(parse_units_spec(s.drop_last())->0) as i64)
    } else {
        Dimension::Auto
    }
}

/// What a host field value denotes as a sizing dimension.
pub open spec fn dimension_of(v: Option<HostValue>) -> Dimension {
    match v {
        Some(HostValue::Number(n)) => Dimension::Length(n),
        Some(HostValue::Text(s)) => text_dimension(s@),
        _ => Dimension::Auto,
    }
}

/// What a textual field value denotes as an inset or margin value, with
/// the field's own `default` as the fallback.
pub open spec fn text_lpa(s: Seq<char>, default: LengthPercentageAuto) -> LengthPercentageAuto {
    if s == "auto"@ {
        LengthPercentageAuto::Auto
    } else if parse_units_spec(s) is Some {
        LengthPercentageAuto::Length(parse_units_spec(s)->0 as i64)
    } else if s.len() > 0 && s.last() == '%' && parse_units_spec(s.drop_last()) is Some {
        LengthPercentageAuto::Percent(percent_fraction(parse_units_spec(s.drop_last())->0) as i64)
    } else {
        default
    }
}

/// What a host field value denotes as an inset or margin value.
pub open spec fn lpa_of(v: Option<HostValue>, default: LengthPercentageAuto)
    -> LengthPercentageAuto {
    match v {
        Some(HostValue::Number(n)) => LengthPercentageAuto::Length(n),
        Some(HostValue::Text(s)) => text_lpa(s@, default),
        _ => default,
    }
}

/// What a textual field value denotes as a spacing value; `"auto"` is not
/// recognized here and zero length is the fallback.
pub open spec fn text_lp(s: Seq<char>) -> LengthPercentage {
    if parse_units_spec(s) is Some {
        LengthPercentage::Length(parse_units_spec(s)->0 as i64)
    } else if s.len() > 0 && s.last() == '%' && parse_units_spec(s.drop_last()) is Some {
        LengthPercentage::Percent(percent_fraction(parse_units_spec(s.drop_last())->0) as i64)
    } else {
        LengthPercentage::Length(0)
    }
}

/// What a host field value denotes as a spacing value.
pub open spec fn lp_of(v: Option<HostValue>) -> LengthPercentage {
    match v {
        Some(HostValue::Number(n)) => LengthPercentage::Length(n),
        Some(HostValue::Text(s)) => text_lp(s@),
        _ => LengthPercentage::Length(0),
    }
}

/// What a textual field value denotes as an available-space budget:
/// the content keywords, then numeric text, then a zero budget.
pub open spec fn text_avail(s: Seq<char>) -> AvailableSpace {
    if s == "min"@ || s == "minContent"@ {
        AvailableSpace::MinContent
    } else if s == "max"@ || s == "maxContent"@ {
        AvailableSpace::MaxContent
    } else if parse_units_spec(s) is Some {
        AvailableSpace::Definite(parse_units_spec(s)->0 as i64)
    } else {
        AvailableSpace::Definite(0)
    }
}

/// What a host field value denotes as an available-space budget.
pub open spec fn avail_of(v: Option<HostValue>) -> AvailableSpace {
    match v {
        Some(HostValue::Number(n)) => AvailableSpace::Definite(n),
        Some(HostValue::Text(s)) => text_avail(s@),
        _ => AvailableSpace::Definite(0),
    }
}

/// What a host field value denotes as an enum selector code: the whole
/// units of a numeric value, clamped to the `i32` range; text and other
/// shapes carry no code.
pub open spec fn code_of(v: Option<HostValue>) -> Option<int> {
    match v {
        Some(HostValue::Number(n)) => Some(clamp_to_i32(whole_units(n as int))),
        _ => None,
    }
}

/// What a host field value denotes as a raw fixed-point number.
pub open spec fn units_of(v: Option<HostValue>) -> Option<i64> {
    match v {
        Some(HostValue::Number(n)) => Some(n),
        _ => None,
    }
}

/// Whether text equals a short keyword, compared character by character.
fn text_is(s: &String, keyword: &str) -> (r: bool)
    ensures
        r == (s@ == keyword@),
{
    let a = s.as_str();
    let n = a.unicode_len();
    let m = keyword.unicode_len();
    if n != m {
        proof {
            assert(s@ =~= keyword@ ==> s@.len() == keyword@.len());
        }
        return false;
    }
    let mut i: usize = 0;
    while i < n
        invariant
            0 <= i <= n,
            n == s@.len(),
            n == keyword@.len(),
            a@ == s@,
            forall|j: int| 0 <= j < i ==> s@[j] == keyword@[j],
        decreases n - i,
    {
        if a.get_char(i) != keyword.get_char(i) {
            proof {
                assert(s@[i as int] != keyword@[i as int]);
                assert(s@ != keyword@);
            }
            return false;
        }
        i = i + 1;
    }
    proof {
        assert(s@ =~= keyword@);
    }
    true
}

/// The tail percentage parse of text that is not plain numeric: the prefix
/// before a final `'%'`, as units, if it parses.
fn percent_prefix(s: &String) -> (r: Option<i64>)
    ensures
        match r {
            Some(p) => s@.len() > 0 && s@.last() == '%' && parse_units_spec(s@.drop_last())
                == Some(p as int) && -10_000_000_000_000_000 < p < 10_000_000_000_000_000,
            None => !(s@.len() > 0 && s@.last() == '%' && parse_units_spec(s@.drop_last())
                is Some),
        },
{
    let a = s.as_str();
    let n = a.unicode_len();
    if n == 0 {
        return None;
    }
    if a.get_char(n - 1) != '%' {
        return None;
    }
    let prefix = a.substring_char(0, n - 1);
    proof {
        assert(prefix@ =~= s@.drop_last());
    }
    parse_units(prefix)
}

/// Normalizes a host field value into a sizing dimension: a number is a
/// length; `"auto"`, numeric text, and `"N%"` read as themselves; anything
/// else is `Auto`.
pub fn get_dimension(v: &Option<HostValue>) -> (r: Dimension)
    ensures
        r == dimension_of(*v),
{
    match v {
        Some(HostValue::Number(n)) => Dimension::Length(*n),
        Some(HostValue::Text(s)) => {
            if text_is(s, "auto") {
                Dimension::Auto
            } else {
                match parse_units(s.as_str()) {
                    Some(u) => Dimension::Length(u),
                    None => {
                        match percent_prefix(s) {
                            Some(p) => Dimension::Percent(percent_fraction_exec(p)),
                            None => Dimension::Auto,
                        }
                    },
                }
            }
        },
        _ => Dimension::Auto,
    }
}

/// Normalizes a host field value for the size, minimum-size and
/// maximum-size fields; these read exactly as [`get_dimension`] does.
pub fn get_size_dimension(v: &Option<HostValue>) -> (r: Dimension)
    ensures
        r == dimension_of(*v),
{
    let dimension = get_dimension(v);
    match dimension {
        Dimension::Auto => Dimension::Auto,
        _ => dimension,
    }
}

/// Normalizes a host field value into an inset or margin value. The
/// fallback is the field's own default: `Auto` for insets, zero length
/// for margins.
pub fn get_length_percentage_auto_dimension(
    v: &Option<HostValue>,
    default: LengthPercentageAuto,
) -> (r: LengthPercentageAuto)
    ensures
        r == lpa_of(*v, default),
{
    match v {
        Some(HostValue::Number(n)) => LengthPercentageAuto::Length(*n),
        Some(HostValue::Text(s)) => {
            if text_is(s, "auto") {
                LengthPercentageAuto::Auto
            } else {
                match parse_units(s.as_str()) {
                    Some(u) => LengthPercentageAuto::Length(u),
                    None => {
                        match percent_prefix(s) {
                            Some(p) => LengthPercentageAuto::Percent(percent_fraction_exec(p)),
                            None => default,
                        }
                    },
                }
            }
        },
        _ => default,
    }
}

/// Normalizes a host field value into a spacing value (padding, border,
/// gap). `"auto"` is not recognized here; the fallback is zero length.
pub fn get_length_percentage_dimension(v: &Option<HostValue>) -> (r: LengthPercentage)
    ensures
        r == lp_of(*v),
{
    match v {
        Some(HostValue::Number(n)) => LengthPercentage::Length(*n),
        Some(HostValue::Text(s)) => {
            match parse_units(s.as_str()) {
                Some(u) => LengthPercentage::Length(u),
                None => {
                    match percent_prefix(s) {
                        Some(p) => LengthPercentage::Percent(percent_fraction_exec(p)),
                        None => LengthPercentage::Length(0),
                    }
                },
            }
        },
        _ => LengthPercentage::Length(0),
    }
}

/// Normalizes a host field value into an available-space budget: a number
/// is a definite budget, the content keywords read as themselves, numeric
/// text is definite, and everything else is a definite zero.
pub fn get_available_space(v: &Option<HostValue>) -> (r: AvailableSpace)
    ensures
        r == avail_of(*v),
{
    match v {
        Some(HostValue::Number(n)) => AvailableSpace::Definite(*n),
        Some(HostValue::Text(s)) => {
            if text_is(s, "min") || text_is(s, "minContent") {
                AvailableSpace::MinContent
            } else if text_is(s, "max") || text_is(s, "maxContent") {
                AvailableSpace::MaxContent
            } else {
                match parse_units(s.as_str()) {
                    Some(u) => AvailableSpace::Definite(u),
                    None => AvailableSpace::Definite(0),
                }
            }
        },
        _ => AvailableSpace::Definite(0),
    }
}

/// Reads a host field value as an enum selector code, if it is numeric.
pub fn get_i32(v: &Option<HostValue>) -> (r: Option<i32>)
    ensures
        match r {
            Some(c) => code_of(*v) == Some(c as int),
            None => code_of(*v) is None,
        },
{
    match v {
        Some(HostValue::Number(n)) => {
            if *n == i64::MIN {
                // The most negative value clamps without computing its whole part.
                proof {
                    assert(whole_units(i64::MIN as int) < i32::MIN);
                }
                return Some(i32::MIN);
            }
            let w = whole_units_exec(*n);
            if w > i32::MAX as i64 {
                Some(i32::MAX)
            } else if w < i32::MIN as i64 {
                Some(i32::MIN)
            } else {
                Some(w as i32)
            }
        },
        _ => None,
    }
}

/// Reads a host field value as a raw fixed-point number, if it is numeric.
pub fn get_units(v: &Option<HostValue>) -> (r: Option<i64>)
    ensures
        r == units_of(*v),
{
    match v {
        Some(HostValue::Number(n)) => Some(*n),
        _ => None,
    }
}

/// The magnitude-truncating quotient of `n` by a hundred.
fn percent_fraction_exec(n: i64) -> (r: i64)
    requires
        n != i64::MIN,
    ensures
        r as int == percent_fraction(n as int),
{
    if n >= 0 {
        n / 100
    } else {
        -((-n) / 100)
    }
}

/// The magnitude-truncating quotient of `n` by a thousand.
fn whole_units_exec(n: i64) -> (r: i64)
    requires
        n != i64::MIN,
    ensures
        r as int == whole_units(n as int),
{
    if n >= 0 {
        n / 1000
    } else {
        -((-n) / 1000)
    }
}

} // verus!

verus! {

/// What a host field value denotes as an optional cross-axis alignment.
pub open spec fn align_items_field(v: Option<HostValue>) -> Option<AlignItems> {
    match code_of(v) {
        Some(c) => Some(AlignItems::spec_from_code(c)),
        None => None,
    }
}

/// What a host field value denotes as an optional self-alignment.
pub open spec fn align_self_field(v: Option<HostValue>) -> Option<AlignSelf> {
    match code_of(v) {
        Some(c) => Some(AlignSelf::spec_from_code(c)),
        None => None,
    }
}

/// What a host field value denotes as an optional content distribution.
pub open spec fn align_content_field(v: Option<HostValue>) -> Option<AlignContent> {
    match code_of(v) {
        Some(c) => Some(AlignContent::spec_from_code(c)),
        None => None,
    }
}

/// What a host field value denotes as a display mode.
pub open spec fn display_field(v: Option<HostValue>) -> Display {
    match code_of(v) {
        Some(c) => Display::spec_from_code(c),
        None => Display::Flex,
    }
}

/// What a host field value denotes as a position mode.
pub open spec fn position_field(v: Option<HostValue>) -> Position {
    match code_of(v) {
        Some(c) => Position::spec_from_code(c),
        None => Position::Relative,
    }
}

/// What a host field value denotes as a flex direction.
pub open spec fn flex_direction_field(v: Option<HostValue>) -> FlexDirection {
    match code_of(v) {
        Some(c) => FlexDirection::spec_from_code(c),
        None => FlexDirection::Row,
    }
}

/// What a host field value denotes as a wrap mode.
pub open spec fn flex_wrap_field(v: Option<HostValue>) -> FlexWrap {
    match code_of(v) {
        Some(c) => FlexWrap::spec_from_code(c),
        None => FlexWrap::NoWrap,
    }
}

/// What a host field value denotes as an overflow mode for one axis.
pub open spec fn overflow_field(v: Option<HostValue>) -> Overflow {
    match code_of(v) {
        Some(c) => Overflow::spec_from_code(c),
        None => Overflow::Visible,
    }
}

/// A host style-intent object: one loosely-typed value per recognized
/// field, with absent fields simply missing. The host adapter fills this
/// from whatever dynamic shape the host uses.
#[derive(Clone, Debug)]
pub struct RawStyle {
    /// The display-mode selector code.
    pub display: Option<HostValue>,
    /// The position-mode selector code.
    pub position: Option<HostValue>,
    /// The flex-direction selector code.
    pub flex_direction: Option<HostValue>,
    /// The wrap-mode selector code.
    pub flex_wrap: Option<HostValue>,
    /// The cross-axis alignment selector code.
    pub align_items: Option<HostValue>,
    /// The self-alignment selector code.
    pub align_self: Option<HostValue>,
    /// The inline-axis alignment selector code.
    pub justify_items: Option<HostValue>,
    /// The inline-axis self-alignment selector code.
    pub justify_self: Option<HostValue>,
    /// The content-distribution selector code for the cross axis.
    pub align_content: Option<HostValue>,
    /// The content-distribution selector code for the main axis.
    pub justify_content: Option<HostValue>,
    /// The overflow selector code for the horizontal axis.
    pub overflow_x: Option<HostValue>,
    /// The overflow selector code for the vertical axis.
    pub overflow_y: Option<HostValue>,
    /// The left inset.
    pub inset_left: Option<HostValue>,
    /// The right inset.
    pub inset_right: Option<HostValue>,
    /// The top inset.
    pub inset_top: Option<HostValue>,
    /// The bottom inset.
    pub inset_bottom: Option<HostValue>,
    /// The left margin.
    pub margin_left: Option<HostValue>,
    /// The right margin.
    pub margin_right: Option<HostValue>,
    /// The top margin.
    pub margin_top: Option<HostValue>,
    /// The bottom margin.
    pub margin_bottom: Option<HostValue>,
    /// The left padding.
    pub padding_left: Option<HostValue>,
    /// The right padding.
    pub padding_right: Option<HostValue>,
    /// The top padding.
    pub padding_top: Option<HostValue>,
    /// The bottom padding.
    pub padding_bottom: Option<HostValue>,
    /// The left border width.
    pub border_left: Option<HostValue>,
    /// The right border width.
    pub border_right: Option<HostValue>,
    /// The top border width.
    pub border_top: Option<HostValue>,
    /// The bottom border width.
    pub border_bottom: Option<HostValue>,
    /// The gap between columns.
    pub gap_width: Option<HostValue>,
    /// The gap between rows.
    pub gap_height: Option<HostValue>,
    /// The initial width.
    pub width: Option<HostValue>,
    /// The initial height.
    pub height: Option<HostValue>,
    /// The minimum width.
    pub min_width: Option<HostValue>,
    /// The minimum height.
    pub min_height: Option<HostValue>,
    /// The maximum width.
    pub max_width: Option<HostValue>,
    /// The maximum height.
    pub max_height: Option<HostValue>,
    /// The growth weight.
    pub flex_grow: Option<HostValue>,
    /// The shrink weight.
    pub flex_shrink: Option<HostValue>,
    /// The initial main-axis size.
    pub flex_basis: Option<HostValue>,
    /// The preferred width-to-height ratio.
    pub aspect_ratio: Option<HostValue>,
}

impl RawStyle {
    /// A host style object with every field absent.
    pub fn empty() -> (r: RawStyle)
        ensures
            r.display is None,
            r.position is None,
            r.flex_direction is None,
            r.flex_wrap is None,
            r.align_items is None,
            r.align_self is None,
            r.justify_items is None,
            r.justify_self is None,
            r.align_content is None,
            r.justify_content is None,
            r.overflow_x is None,
            r.overflow_y is None,
            r.inset_left is None,
            r.inset_right is None,
            r.inset_top is None,
            r.inset_bottom is None,
            r.margin_left is None,
            r.margin_right is None,
            r.margin_top is None,
            r.margin_bottom is None,
            r.padding_left is None,
            r.padding_right is None,
            r.padding_top is None,
            r.padding_bottom is None,
            r.border_left is None,
            r.border_right is None,
            r.border_top is None,
            r.border_bottom is None,
            r.gap_width is None,
            r.gap_height is None,
            r.width is None,
            r.height is None,
            r.min_width is None,
            r.min_height is None,
            r.max_width is None,
            r.max_height is None,
            r.flex_grow is None,
            r.flex_shrink is None,
            r.flex_basis is None,
            r.aspect_ratio is None,
    {
        RawStyle {
            display: None,
            position: None,
            flex_direction: None,
            flex_wrap: None,
            align_items: None,
            align_self: None,
            justify_items: None,
            justify_self: None,
            align_content: None,
            justify_content: None,
            overflow_x: None,
            overflow_y: None,
            inset_left: None,
            inset_right: None,
            inset_top: None,
            inset_bottom: None,
            margin_left: None,
            margin_right: None,
            margin_top: None,
            margin_bottom: None,
            padding_left: None,
            padding_right: None,
            padding_top: None,
            padding_bottom: None,
            border_left: None,
            border_right: None,
            border_top: None,
            border_bottom: None,
            gap_width: None,
            gap_height: None,
            width: None,
            height: None,
            min_width: None,
            min_height: None,
            max_width: None,
            max_height: None,
            flex_grow: None,
            flex_shrink: None,
            flex_basis: None,
            aspect_ratio: None,
        }
    }
}

/// Normalizes a whole host style object into a typed `Style`, field by
/// field, applying each field's documented default where the host value
/// is absent or unreadable. The adapter pins the scrollbar width at 1024
/// units for every style it produces.
pub fn parse_style(raw: &RawStyle) -> (r: Style)
    ensures
        r.display == display_field(raw.display),
        r.position == position_field(raw.position),
        r.flex_direction == flex_direction_field(raw.flex_direction),
        r.flex_wrap == flex_wrap_field(raw.flex_wrap),
        r.align_items == align_items_field(raw.align_items),
        r.align_self == align_self_field(raw.align_self),
        r.justify_items == align_items_field(raw.justify_items),
        r.justify_self == align_self_field(raw.justify_self),
        r.align_content == align_content_field(raw.align_content),
        r.justify_content == align_content_field(raw.justify_content),
        r.overflow.x == overflow_field(raw.overflow_x),
        r.overflow.y == overflow_field(raw.overflow_y),
        r.inset.left == lpa_of(raw.inset_left, LengthPercentageAuto::Auto),
        r.inset.right == lpa_of(raw.inset_right, LengthPercentageAuto::Auto),
        r.inset.top == lpa_of(raw.inset_top, LengthPercentageAuto::Auto),
        r.inset.bottom == lpa_of(raw.inset_bottom, LengthPercentageAuto::Auto),
        r.margin.left == lpa_of(raw.margin_left, LengthPercentageAuto::Length(0)),
        r.margin.right == lpa_of(raw.margin_right, LengthPercentageAuto::Length(0)),
        r.margin.top == lpa_of(raw.margin_top, LengthPercentageAuto::Length(0)),
        r.margin.bottom == lpa_of(raw.margin_bottom, LengthPercentageAuto::Length(0)),
        r.padding.left == lp_of(raw.padding_left),
        r.padding.right == lp_of(raw.padding_right),
        r.padding.top == lp_of(raw.padding_top),
        r.padding.bottom == lp_of(raw.padding_bottom),
        r.border.left == lp_of(raw.border_left),
        r.border.right == lp_of(raw.border_right),
        r.border.top == lp_of(raw.border_top),
        r.border.bottom == lp_of(raw.border_bottom),
        r.gap.width == lp_of(raw.gap_width),
        r.gap.height == lp_of(raw.gap_height),
        r.size.width == dimension_of(raw.width),
        r.size.height == dimension_of(raw.height),
        r.min_size.width == dimension_of(raw.min_width),
        r.min_size.height == dimension_of(raw.min_height),
        r.max_size.width == dimension_of(raw.max_width),
        r.max_size.height == dimension_of(raw.max_height),
        r.flex_grow == units_of(raw.flex_grow).unwrap_or(0),
        r.flex_shrink == units_of(raw.flex_shrink).unwrap_or(1000),
        r.flex_basis == dimension_of(raw.flex_basis),
        r.aspect_ratio == units_of(raw.aspect_ratio),
        r.scrollbar_width == 1_024_000,
{
    let display = match get_i32(&raw.display) {
        Some(c) => Display::from_code(c),
        None => Display::default(),
    };
    let position = match get_i32(&raw.position) {
        Some(c) => Position::from_code(c),
        None => Position::default(),
    };
    let flex_direction = match get_i32(&raw.flex_direction) {
        Some(c) => FlexDirection::from_code(c),
        None => FlexDirection::default(),
    };
    let flex_wrap = match get_i32(&raw.flex_wrap) {
        Some(c) => FlexWrap::from_code(c),
        None => FlexWrap::default(),
    };
    let align_items = match get_i32(&raw.align_items) {
        Some(c) => Some(AlignItems::from_code(c)),
        None => None,
    };
    let align_self = match get_i32(&raw.align_self) {
        Some(c) => Some(AlignSelf::from_code(c)),
        None => None,
    };
    let justify_items = match get_i32(&raw.justify_items) {
        Some(c) => Some(AlignItems::from_code(c)),
        None => None,
    };
    let justify_self = match get_i32(&raw.justify_self) {
        Some(c) => Some(AlignSelf::from_code(c)),
        None => None,
    };
    let align_content = match get_i32(&raw.align_content) {
        Some(c) => Some(AlignContent::from_code(c)),
        None => None,
    };
    let justify_content = match get_i32(&raw.justify_content) {
        Some(c) => Some(AlignContent::from_code(c)),
        None => None,
    };
    let overflow_x = match get_i32(&raw.overflow_x) {
        Some(c) => Overflow::from_code(c),
        None => Overflow::default(),
    };
    let overflow_y = match get_i32(&raw.overflow_y) {
        Some(c) => Overflow::from_code(c),
        None => Overflow::default(),
    };
    let flex_grow = match get_units(&raw.flex_grow) {
        Some(u) => u,
        None => 0,
    };
    let flex_shrink = match get_units(&raw.flex_shrink) {
        Some(u) => u,
        None => 1000,
    };
    Style {
        display,
        overflow: Point { x: overflow_x, y: overflow_y },
        scrollbar_width: 1_024_000,
        position,
        inset: Rect {
            left: get_length_percentage_auto_dimension(
                &raw.inset_left,
                LengthPercentageAuto::Auto,
            ),
            right: get_length_percentage_auto_dimension(
                &raw.inset_right,
                LengthPercentageAuto::Auto,
            ),
            top: get_length_percentage_auto_dimension(&raw.inset_top, LengthPercentageAuto::Auto),
            bottom: get_length_percentage_auto_dimension(
                &raw.inset_bottom,
                LengthPercentageAuto::Auto,
            ),
        },
        size: Size {
            width: get_size_dimension(&raw.width),
            height: get_size_dimension(&raw.height),
        },
        min_size: Size {
            width: get_size_dimension(&raw.min_width),
            height: get_size_dimension(&raw.min_height),
        },
        max_size: Size {
            width: get_size_dimension(&raw.max_width),
            height: get_size_dimension(&raw.max_height),
        },
        aspect_ratio: get_units(&raw.aspect_ratio),
        margin: Rect {
            left: get_length_percentage_auto_dimension(
                &raw.margin_left,
                LengthPercentageAuto::Length(0),
            ),
            right: get_length_percentage_auto_dimension(
                &raw.margin_right,
                LengthPercentageAuto::Length(0),
            ),
            top: get_length_percentage_auto_dimension(
                &raw.margin_top,
                LengthPercentageAuto::Length(0),
            ),
            bottom: get_length_percentage_auto_dimension(
                &raw.margin_bottom,
                LengthPercentageAuto::Length(0),
            ),
        },
        padding: Rect {
            left: get_length_percentage_dimension(&raw.padding_left),
            right: get_length_percentage_dimension(&raw.padding_right),
            top: get_length_percentage_dimension(&raw.padding_top),
            bottom: get_length_percentage_dimension(&raw.padding_bottom),
        },
        border: Rect {
            left: get_length_percentage_dimension(&raw.border_left),
            right: get_length_percentage_dimension(&raw.border_right),
            top: get_length_percentage_dimension(&raw.border_top),
            bottom: get_length_percentage_dimension(&raw.border_bottom),
        },
        align_items,
        align_self,
        justify_items,
        justify_self,
        align_content,
        justify_content,
        gap: Size {
            width: get_length_percentage_dimension(&raw.gap_width),
            height: get_length_percentage_dimension(&raw.gap_height),
        },
        flex_direction,
        flex_wrap,
        flex_basis: get_dimension(&raw.flex_basis),
        flex_grow,
        flex_shrink,
    }
}

} // verus!

verus! {

/// Text that ends in a percent sign is never plain numeric text.
pub proof fn lemma_percent_tail_not_number(s: Seq<char>)
    requires
        s.len() >= 1,
        s.last() == '%',
    ensures
        parse_units_spec(s) is None,
{
    assert('%' as u32 == 37);
    let neg = s.len() > 0 && s[0] == '-';
    let body = if neg {
        s.skip(1)
    } else {
        s
    };
    if body.len() == 0 {
    } else {
        assert(body.last() == s.last());
        assert(!is_digit(body.last()));
        lemma_digit_run_props(body);
        let k = digit_run_len(body);
        if number_wf(body) {
            if k == body.len() {
                assert(is_digit(body[k - 1]));
                assert(false);
            } else {
                let f = body.skip(k + 1);
                assert(f[f.len() - 1] == body[body.len() - 1]);
                assert(is_digit(f[f.len() - 1]));
                assert(false);
            }
        }
    }
}

/// The canonical percentage text of a fixed-point fraction: the fraction
/// as a percent count followed by a percent sign. The text reads back as
/// exactly that fraction and as nothing else.
fn percent_text(p: i64) -> (t: String)
    requires
        -100_000_000_000_000 < p < 100_000_000_000_000,
    ensures
        t@.len() > 0,
        t@.last() == '%',
        parse_units_spec(t@) is None,
        parse_units_spec(t@.drop_last()) == Some(100 * p),
        percent_fraction(100 * p) == p,
        t@ != "auto"@,
{
    let mut t = units_to_text(100 * p);
    let ghost base: Seq<char> = t@;
    t.append("%");
    proof {
        reveal_strlit("%");
        reveal_strlit("auto");
        assert(t@.drop_last() =~= base);
        assert(t@.last() == '%');
        lemma_percent_tail_not_number(t@);
        assert('%' as u32 == 37);
        assert('o' as u32 == 111);
        assert(t@ != "auto"@) by {
            if t@ == "auto"@ {
                assert(t@.last() == 'o');
            }
        }
        assert(percent_fraction(100 * p) == p) by {
            if p >= 0 {
                vstd::arithmetic::div_mod::lemma_div_multiples_vanish(p as int, 100);
            } else {
                vstd::arithmetic::div_mod::lemma_div_multiples_vanish(-(p as int), 100);
            }
        }
    }
    t
}

/// Whether a sizing dimension is inside the range the canonical host
/// embedding can carry.
pub open spec fn dimension_in_range(d: Dimension) -> bool {
    match d {
        Dimension::Length(_) => true,
        Dimension::Percent(p) => -100_000_000_000_000 < p < 100_000_000_000_000,
        Dimension::Auto => true,
    }
}

/// Whether an inset or margin value is inside the embeddable range.
pub open spec fn lpa_in_range(d: LengthPercentageAuto) -> bool {
    match d {
        LengthPercentageAuto::Length(_) => true,
        LengthPercentageAuto::Percent(p) => -100_000_000_000_000 < p < 100_000_000_000_000,
        LengthPercentageAuto::Auto => true,
    }
}

/// Whether a spacing value is inside the embeddable range.
pub open spec fn lp_in_range(d: LengthPercentage) -> bool {
    match d {
        LengthPercentage::Length(_) => true,
        LengthPercentage::Percent(p) => -100_000_000_000_000 < p < 100_000_000_000_000,
    }
}

/// Normalization is idempotent on sizing dimensions: embedding a typed
/// dimension back into its canonical host form and normalizing again
/// yields the same dimension, for every value in the embeddable range.
pub fn dimension_to_host(d: Dimension) -> (v: HostValue)
    requires
        dimension_in_range(d),
    ensures
        dimension_of(Some(v)) == d,
{
    match d {
        Dimension::Length(u) => HostValue::Number(u),
        Dimension::Percent(p) => {
            let t = percent_text(p);
            proof {
                assert(text_dimension(t@) == Dimension::Percent(p));
            }
            HostValue::Text(t)
        },
        Dimension::Auto => {
            let t = keyword_auto();
            HostValue::Text(t)
        },
    }
}

/// Normalization is idempotent on inset and margin values, for every
/// value in the embeddable range and either field default.
#[allow(unused_variables)]
pub fn lpa_to_host(d: LengthPercentageAuto, default: LengthPercentageAuto) -> (v: HostValue)
    requires
        lpa_in_range(d),
    ensures
        lpa_of(Some(v), default) == d,
{
    match d {
        LengthPercentageAuto::Length(u) => HostValue::Number(u),
        LengthPercentageAuto::Percent(p) => {
            let t = percent_text(p);
            proof {
                assert(text_lpa(t@, default) == LengthPercentageAuto::Percent(p));
            }
            HostValue::Text(t)
        },
        LengthPercentageAuto::Auto => {
            let t = keyword_auto();
            HostValue::Text(t)
        },
    }
}

/// Normalization is idempotent on spacing values, for every value in the
/// embeddable range.
pub fn lp_to_host(d: LengthPercentage) -> (v: HostValue)
    requires
        lp_in_range(d),
    ensures
        lp_of(Some(v)) == d,
{
    match d {
        LengthPercentage::Length(u) => HostValue::Number(u),
        LengthPercentage::Percent(p) => {
            let t = percent_text(p);
            proof {
                assert(text_lp(t@) == LengthPercentage::Percent(p));
            }
            HostValue::Text(t)
        },
    }
}

/// The keyword that reads back as `Auto`.
fn keyword_auto() -> (t: String)
    ensures
        t@ == "auto"@,
{
    let t = String::new();
    let mut t = t;
    t.append("auto");
    proof {
        assert(t@ =~= "auto"@);
    }
    t
}

} // verus!

verus! {

/// A percentage fraction computed from a parsed percent count stays
/// within fourteen decimal digits.
proof fn lemma_percent_fraction_bound(p: int)
    requires
        -10_000_000_000_000_000 < p < 10_000_000_000_000_000,
    ensures
        -100_000_000_000_000 < percent_fraction(p) < 100_000_000_000_000,
{
    if p >= 0 {
        assert(p == 100 * (p / 100) + p % 100);
        assert(0 <= p % 100 < 100);
    } else {
        assert(-p == 100 * ((-p) / 100) + (-p) % 100);
        assert(0 <= (-p) % 100 < 100);
    }
}

/// Every normalized sizing dimension is embeddable, so normalization is
/// idempotent on every host value: normalizing, embedding through
/// [`dimension_to_host`] and normalizing again changes nothing.
pub proof fn lemma_dimension_of_in_range(v: Option<HostValue>)
    ensures
        dimension_in_range(dimension_of(v)),
{
    match v {
        Some(HostValue::Text(s)) => {
            if s@ == "auto"@ {
            } else if parse_units_spec(s@) is Some {
            } else if s@.len() > 0 && s@.last() == '%' && parse_units_spec(s@.drop_last())
                is Some {
                lemma_parse_units_spec_bound(s@.drop_last());
                lemma_percent_fraction_bound(parse_units_spec(s@.drop_last())->0);
            } else {
            }
        },
        _ => {},
    }
}

/// Every normalized inset or margin value is embeddable, for either field
/// default, so normalization is idempotent on every host value here too.
pub proof fn lemma_lpa_of_in_range(v: Option<HostValue>, default: LengthPercentageAuto)
    requires
        lpa_in_range(default),
    ensures
        lpa_in_range(lpa_of(v, default)),
{
    match v {
        Some(HostValue::Text(s)) => {
            if s@ == "auto"@ {
            } else if parse_units_spec(s@) is Some {
            } else if s@.len() > 0 && s@.last() == '%' && parse_units_spec(s@.drop_last())
                is Some {
                lemma_parse_units_spec_bound(s@.drop_last());
                lemma_percent_fraction_bound(parse_units_spec(s@.drop_last())->0);
            } else {
            }
        },
        _ => {},
    }
}

/// Every normalized spacing value is embeddable as well.
pub proof fn lemma_lp_of_in_range(v: Option<HostValue>)
    ensures
        lp_in_range(lp_of(v)),
{
    match v {
        Some(HostValue::Text(s)) => {
            if parse_units_spec(s@) is Some {
            } else if s@.len() > 0 && s@.last() == '%' && parse_units_spec(s@.drop_last())
                is Some {
                lemma_parse_units_spec_bound(s@.drop_last());
                lemma_percent_fraction_bound(parse_units_spec(s@.drop_last())->0);
            } else {
            }
        },
        _ => {},
    }
}

} // verus!

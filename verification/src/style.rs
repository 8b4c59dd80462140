//! The typed style model: a node's layout intent as a value object.
//!
//! Numeric fields are fixed-point device units (thousandths, see [`crate::UNIT`]).
//! Percentages are fractions of a reference size on the same scale, so
//! `Percent(500)` means one half, not fifty.

use crate::geometry::{Point, Rect, Size};
use vstd::prelude::*;

verus! {

/// Which layout strategy lays out the children of a node.
#[derive(Clone, Copy, Debug, PartialEq, Eq, Structural)]
pub enum Display {
    /// Children follow the flexbox layout algorithm.
    Flex,
    /// Children follow the grid layout algorithm.
    Grid,
    /// Children are not laid out and follow absolute positioning.
    Off,
}

impl Display {
    /// The typed value for a host-supplied numeric code, as a spec-level map.
    /// Unknown codes fall back to the default, `Flex`.
    pub open spec fn spec_from_code(code: int) -> Display {
        if code == 0 {
            Display::Flex
        } else if code == 1 {
            Display::Grid
        } else if code == 2 {
            Display::Off
        } else {
            Display::Flex
        }
    }

    /// The typed value for a host-supplied numeric code.
    pub fn from_code(code: i32) -> (r: Display)
        ensures
            r == Display::spec_from_code(code as int),
    {
        match code {
            0 => Display::Flex,
            1 => Display::Grid,
            2 => Display::Off,
            _ => Display::Flex,
        }
    }
}

impl Default for Display {
    fn default() -> (r: Display)
        ensures
            r == Display::Flex,
    {
        Display::Flex
    }
}

/// The positioning strategy for a node.
#[derive(Clone, Copy, Debug, PartialEq, Eq, Structural)]
pub enum Position {
    /// The inset is a correction applied to the position the algorithm chose.
    Relative,
    /// The node is placed relative to its closest positioned ancestor and
    /// takes no space in the surrounding layout.
    Absolute,
}

impl Position {
    /// The typed value for a host-supplied numeric code, as a spec-level map.
    /// Unknown codes fall back to the default, `Relative`.
    pub open spec fn spec_from_code(code: int) -> Position {
        if code == 0 {
            Position::Relative
        } else if code == 1 {
            Position::Absolute
        } else {
            Position::Relative
        }
    }

    /// The typed value for a host-supplied numeric code.
    pub fn from_code(code: i32) -> (r: Position)
        ensures
            r == Position::spec_from_code(code as int),
    {
        match code {
            0 => Position::Relative,
            1 => Position::Absolute,
            _ => Position::Relative,
        }
    }
}

impl Default for Position {
    fn default() -> (r: Position)
        ensures
            r == Position::Relative,
    {
        Position::Relative
    }
}

/// How content overflowing a node's box affects layout on one axis.
#[derive(Clone, Copy, Debug, PartialEq, Eq, Structural)]
pub enum Overflow {
    /// Automatic minimum size is content-based; overflow spills into the parent.
    Visible,
    /// Automatic minimum size is content-based; overflow is cut off.
    Clip,
    /// Automatic minimum size is zero; overflow is cut off.
    Hidden,
    /// Automatic minimum size is zero and space is reserved for a scrollbar.
    Scroll,
}

impl Overflow {
    /// The typed value for a host-supplied numeric code, as a spec-level map.
    /// Unknown codes fall back to the default, `Visible`.
    pub open spec fn spec_from_code(code: int) -> Overflow {
        if code == 0 {
            Overflow::Visible
        } else if code == 1 {
            Overflow::Hidden
        } else if code == 2 {
            Overflow::Scroll
        } else if code == 3 {
            Overflow::Clip
        } else {
            Overflow::Visible
        }
    }

    /// The typed value for a host-supplied numeric code.
    pub fn from_code(code: i32) -> (r: Overflow)
        ensures
            r == Overflow::spec_from_code(code as int),
    {
        match code {
            0 => Overflow::Visible,
            1 => Overflow::Hidden,
            2 => Overflow::Scroll,
            3 => Overflow::Clip,
            _ => Overflow::Visible,
        }
    }

    /// Whether this mode contains its contents (`Hidden`, `Scroll`) rather
    /// than letting them spill (`Visible`, `Clip`).
    pub fn is_scroll_container(self) -> (r: bool)
        ensures
            r == (self == Overflow::Hidden || self == Overflow::Scroll),
    {
        match self {
            Overflow::Visible | Overflow::Clip => false,
            Overflow::Hidden | Overflow::Scroll => true,
        }
    }

    /// `Some(0)` when this mode forces the automatic minimum size of an item
    /// to zero, `None` when the minimum stays content-based.
    pub fn maybe_into_automatic_min_size(self) -> (r: Option<i64>)
        ensures
            (self == Overflow::Hidden || self == Overflow::Scroll) ==> r == Some(0i64),
            (self == Overflow::Visible || self == Overflow::Clip) ==> r is None,
    {
        match self.is_scroll_container() {
            true => Some(0),
            false => None,
        }
    }
}

impl Default for Overflow {
    fn default() -> (r: Overflow)
        ensures
            r == Overflow::Visible,
    {
        Overflow::Visible
    }
}

/// Which direction the main axis of a flex container flows in.
#[derive(Clone, Copy, Debug, PartialEq, Eq, Structural)]
pub enum FlexDirection {
    /// Items flow along the horizontal axis.
    Row,
    /// Items flow along the vertical axis.
    Column,
    /// Items flow along the horizontal axis, last item first.
    RowReverse,
    /// Items flow along the vertical axis, last item first.
    ColumnReverse,
    /// Items flow along the depth axis of a volumetric container.
    Depth,
    /// Items flow along the depth axis, last item first.
    DepthReverse,
}

impl FlexDirection {
    /// The typed value for a host-supplied numeric code, as a spec-level map.
    /// Unknown codes fall back to the default, `Row`.
    pub open spec fn spec_from_code(code: int) -> FlexDirection {
        if code == 0 {
            FlexDirection::Row
        } else if code == 1 {
            FlexDirection::Column
        } else if code == 2 {
            FlexDirection::RowReverse
        } else if code == 3 {
            FlexDirection::ColumnReverse
        } else if code == 4 {
            FlexDirection::Depth
        } else if code == 5 {
            FlexDirection::DepthReverse
        } else {
            FlexDirection::Row
        }
    }

    /// The typed value for a host-supplied numeric code.
    pub fn from_code(code: i32) -> (r: FlexDirection)
        ensures
            r == FlexDirection::spec_from_code(code as int),
    {
        match code {
            0 => FlexDirection::Row,
            1 => FlexDirection::Column,
            2 => FlexDirection::RowReverse,
            3 => FlexDirection::ColumnReverse,
            4 => FlexDirection::Depth,
            5 => FlexDirection::DepthReverse,
            _ => FlexDirection::Row,
        }
    }
}

impl Default for FlexDirection {
    fn default() -> (r: FlexDirection)
        ensures
            r == FlexDirection::Row,
    {
        FlexDirection::Row
    }
}

/// Whether flex items wrap onto further lines.
#[derive(Clone, Copy, Debug, PartialEq, Eq, Structural)]
pub enum FlexWrap {
    /// All items stay on a single line.
    NoWrap,
    /// Items wrap onto further lines.
    Wrap,
    /// Items wrap onto further lines in reverse order.
    WrapReverse,
}

impl FlexWrap {
    /// The typed value for a host-supplied numeric code, as a spec-level map.
    /// Unknown codes fall back to the default, `NoWrap`.
    pub open spec fn spec_from_code(code: int) -> FlexWrap {
        if code == 0 {
            FlexWrap::NoWrap
        } else if code == 1 {
            FlexWrap::Wrap
        } else if code == 2 {
            FlexWrap::WrapReverse
        } else {
            FlexWrap::NoWrap
        }
    }

    /// The typed value for a host-supplied numeric code.
    pub fn from_code(code: i32) -> (r: FlexWrap)
        ensures
            r == FlexWrap::spec_from_code(code as int),
    {
        match code {
            0 => FlexWrap::NoWrap,
            1 => FlexWrap::Wrap,
            2 => FlexWrap::WrapReverse,
            _ => FlexWrap::NoWrap,
        }
    }
}

impl Default for FlexWrap {
    fn default() -> (r: FlexWrap)
        ensures
            r == FlexWrap::NoWrap,
    {
        FlexWrap::NoWrap
    }
}

/// How a container's children are aligned on the cross axis.
#[derive(Clone, Copy, Debug, PartialEq, Eq, Structural)]
pub enum AlignItems {
    /// Pack toward the start of the axis.
    Start,
    /// Pack toward the end of the axis.
    End,
    /// Pack toward the main-start edge.
    FlexStart,
    /// Pack toward the main-end edge.
    FlexEnd,
    /// Center within the axis.
    Center,
    /// Align first baselines.
    Baseline,
    /// Stretch to fill the axis.
    Stretch,
}

impl AlignItems {
    /// The typed value for a host-supplied numeric code, as a spec-level map.
    /// Unknown codes fall back to `Start`.
    pub open spec fn spec_from_code(code: int) -> AlignItems {
        if code == 0 {
            AlignItems::Start
        } else if code == 1 {
            AlignItems::End
        } else if code == 2 {
            AlignItems::FlexStart
        } else if code == 3 {
            AlignItems::FlexEnd
        } else if code == 4 {
            AlignItems::Center
        } else if code == 5 {
            AlignItems::Baseline
        } else if code == 6 {
            AlignItems::Stretch
        } else {
            AlignItems::Start
        }
    }

    /// The typed value for a host-supplied numeric code.
    pub fn from_code(code: i32) -> (r: AlignItems)
        ensures
            r == AlignItems::spec_from_code(code as int),
    {
        match code {
            0 => AlignItems::Start,
            1 => AlignItems::End,
            2 => AlignItems::FlexStart,
            3 => AlignItems::FlexEnd,
            4 => AlignItems::Center,
            5 => AlignItems::Baseline,
            6 => AlignItems::Stretch,
            _ => AlignItems::Start,
        }
    }
}

/// How a container's children are aligned on the inline axis.
pub type JustifyItems = AlignItems;

/// How one node overrides its parent's `AlignItems` for itself.
#[derive(Clone, Copy, Debug, PartialEq, Eq, Structural)]
pub enum AlignSelf {
    /// Pack toward the main-start edge.
    FlexStart,
    /// Pack toward the main-end edge.
    FlexEnd,
    /// Pack toward the start of the axis.
    Start,
    /// Pack toward the end of the axis.
    End,
    /// Center within the axis.
    Center,
    /// Align first baselines.
    Baseline,
    /// Stretch to fill the axis.
    Stretch,
}

impl AlignSelf {
    /// The typed value for a host-supplied numeric code, as a spec-level map.
    /// Unknown codes fall back to `Start`.
    pub open spec fn spec_from_code(code: int) -> AlignSelf {
        if code == 0 {
            AlignSelf::Start
        } else if code == 1 {
            AlignSelf::End
        } else if code == 2 {
            AlignSelf::Center
        } else {
            AlignSelf::Start
        }
    }

    /// The typed value for a host-supplied numeric code.
    pub fn from_code(code: i32) -> (r: AlignSelf)
        ensures
            r == AlignSelf::spec_from_code(code as int),
    {
        match code {
            0 => AlignSelf::Start,
            1 => AlignSelf::End,
            2 => AlignSelf::Center,
            _ => AlignSelf::Start,
        }
    }
}

/// How one node overrides its parent's `JustifyItems` for itself.
pub type JustifySelf = AlignSelf;

/// How a container distributes its content lines on the cross axis.
#[derive(Clone, Copy, Debug, PartialEq, Eq, Structural)]
pub enum AlignContent {
    /// Pack lines toward the start of the axis.
    Start,
    /// Pack lines toward the end of the axis.
    End,
    /// Pack lines toward the main-start edge.
    FlexStart,
    /// Pack lines toward the main-end edge.
    FlexEnd,
    /// Center lines within the axis.
    Center,
    /// Stretch lines to fill the axis.
    Stretch,
    /// Equal space between lines, none at the edges.
    SpaceBetween,
    /// Equal space between and around lines.
    SpaceEvenly,
    /// Equal space around each line.
    SpaceAround,
}

impl AlignContent {
    /// The typed value for a host-supplied numeric code, as a spec-level map.
    /// Unknown codes fall back to `Start`.
    pub open spec fn spec_from_code(code: int) -> AlignContent {
        if code == 0 {
            AlignContent::Start
        } else if code == 1 {
            AlignContent::End
        } else if code == 2 {
            AlignContent::FlexStart
        } else if code == 3 {
            AlignContent::FlexEnd
        } else if code == 4 {
            AlignContent::Center
        } else if code == 5 {
            AlignContent::Stretch
        } else if code == 6 {
            AlignContent::SpaceBetween
        } else if code == 7 {
            AlignContent::SpaceEvenly
        } else if code == 8 {
            AlignContent::SpaceAround
        } else {
            AlignContent::Start
        }
    }

    /// The typed value for a host-supplied numeric code.
    pub fn from_code(code: i32) -> (r: AlignContent)
        ensures
            r == AlignContent::spec_from_code(code as int),
    {
        match code {
            0 => AlignContent::Start,
            1 => AlignContent::End,
            2 => AlignContent::FlexStart,
            3 => AlignContent::FlexEnd,
            4 => AlignContent::Center,
            5 => AlignContent::Stretch,
            6 => AlignContent::SpaceBetween,
            7 => AlignContent::SpaceEvenly,
            8 => AlignContent::SpaceAround,
            _ => AlignContent::Start,
        }
    }
}

/// How a container distributes its content on the main axis.
pub type JustifyContent = AlignContent;

/// A sizing value that the style model resolves no further.
#[derive(Clone, Copy, Debug, PartialEq, Eq, Structural)]
pub enum Dimension {
    /// An absolute size in fixed-point device units.
    Length(i64),
    /// A fraction of a reference size, as a fixed-point fraction
    /// (`500` is one half).
    Percent(i64),
    /// The layout algorithm chooses the size.
    Auto,
}

/// A spacing value: an absolute length or a fraction of a reference size.
#[derive(Clone, Copy, Debug, PartialEq, Eq, Structural)]
pub enum LengthPercentage {
    /// An absolute size in fixed-point device units.
    Length(i64),
    /// A fraction of a reference size, as a fixed-point fraction.
    Percent(i64),
}

/// An inset or margin value: a spacing value or `Auto`.
#[derive(Clone, Copy, Debug, PartialEq, Eq, Structural)]
pub enum LengthPercentageAuto {
    /// An absolute size in fixed-point device units.
    Length(i64),
    /// A fraction of a reference size, as a fixed-point fraction.
    Percent(i64),
    /// The layout algorithm chooses the value.
    Auto,
}

/// The room a layout request offers a node on one axis.
#[derive(Clone, Copy, Debug, PartialEq, Eq, Structural)]
pub enum AvailableSpace {
    /// A definite budget in fixed-point device units.
    Definite(i64),
    /// Size the node as small as its content allows.
    MinContent,
    /// Size the node as large as its content wants.
    MaxContent,
}

/// A node's complete layout intent.
#[derive(Clone, Copy, Debug, PartialEq, Eq, Structural)]
pub struct Style {
    /// Which layout strategy lays out this node's children.
    pub display: Display,
    /// How overflowing content affects layout, per axis.
    pub overflow: Point<Overflow>,
    /// Space reserved for scrollbars of `Overflow::Scroll` axes, in units.
    pub scrollbar_width: i64,
    /// The positioning strategy.
    pub position: Position,
    /// The offset from the position the algorithm chose.
    pub inset: Rect<LengthPercentageAuto>,
    /// The initial size of the node.
    pub size: Size<Dimension>,
    /// The minimum size of the node.
    pub min_size: Size<Dimension>,
    /// The maximum size of the node.
    pub max_size: Size<Dimension>,
    /// The preferred width-to-height ratio, as a fixed-point fraction.
    pub aspect_ratio: Option<i64>,
    /// The margin on each side.
    pub margin: Rect<LengthPercentageAuto>,
    /// The padding on each side.
    pub padding: Rect<LengthPercentage>,
    /// The border width on each side.
    pub border: Rect<LengthPercentage>,
    /// Cross-axis alignment of the children; `None` inherits the default.
    pub align_items: Option<AlignItems>,
    /// Cross-axis alignment override for this node itself.
    pub align_self: Option<AlignSelf>,
    /// Inline-axis alignment of the children; `None` inherits the default.
    pub justify_items: Option<JustifyItems>,
    /// Inline-axis alignment override for this node itself.
    pub justify_self: Option<JustifySelf>,
    /// Cross-axis distribution of the content lines.
    pub align_content: Option<AlignContent>,
    /// Main-axis distribution of the content.
    pub justify_content: Option<JustifyContent>,
    /// The gap between items, per axis.
    pub gap: Size<LengthPercentage>,
    /// Which direction the main axis flows in.
    pub flex_direction: FlexDirection,
    /// Whether items wrap onto further lines.
    pub flex_wrap: FlexWrap,
    /// The initial main-axis size of the node.
    pub flex_basis: Dimension,
    /// The rate at which the node grows into free space, as a fixed-point
    /// fraction (`1000` is a weight of one).
    pub flex_grow: i64,
    /// The rate at which the node shrinks to fit, as a fixed-point fraction.
    pub flex_shrink: i64,
}

impl Style {
    /// The default layout intent, as a spec value.
    pub open spec fn spec_default() -> Style {
        Style {
            display: Display::Flex,
            overflow: Point { x: Overflow::Visible, y: Overflow::Visible },
            scrollbar_width: 0,
            position: Position::Relative,
            inset: Rect {
                left: LengthPercentageAuto::Auto,
                right: LengthPercentageAuto::Auto,
                top: LengthPercentageAuto::Auto,
                bottom: LengthPercentageAuto::Auto,
            },
            size: Size { width: Dimension::Auto, height: Dimension::Auto },
            min_size: Size { width: Dimension::Auto, height: Dimension::Auto },
            max_size: Size { width: Dimension::Auto, height: Dimension::Auto },
            aspect_ratio: None,
            margin: Rect {
                left: LengthPercentageAuto::Length(0),
                right: LengthPercentageAuto::Length(0),
                top: LengthPercentageAuto::Length(0),
                bottom: LengthPercentageAuto::Length(0),
            },
            padding: Rect {
                left: LengthPercentage::Length(0),
                right: LengthPercentage::Length(0),
                top: LengthPercentage::Length(0),
                bottom: LengthPercentage::Length(0),
            },
            border: Rect {
                left: LengthPercentage::Length(0),
                right: LengthPercentage::Length(0),
                top: LengthPercentage::Length(0),
                bottom: LengthPercentage::Length(0),
            },
            align_items: None,
            align_self: None,
            justify_items: None,
            justify_self: None,
            align_content: None,
            justify_content: None,
            gap: Size {
                width: LengthPercentage::Length(0),
                height: LengthPercentage::Length(0),
            },
            flex_direction: FlexDirection::Row,
            flex_wrap: FlexWrap::NoWrap,
            flex_basis: Dimension::Auto,
            flex_grow: 0,
            flex_shrink: 1000,
        }
    }

    /// The default layout intent: flex display, visible overflow, automatic
    /// sizing, zero spacing, no alignment overrides.
    pub fn base() -> (r: Style)
        ensures
            r == Style::spec_default(),
    {
        Style {
            display: Display::Flex,
            overflow: Point { x: Overflow::Visible, y: Overflow::Visible },
            scrollbar_width: 0,
            position: Position::Relative,
            inset: Rect::splat(LengthPercentageAuto::Auto),
            size: Size::splat(Dimension::Auto),
            min_size: Size::splat(Dimension::Auto),
            max_size: Size::splat(Dimension::Auto),
            aspect_ratio: None,
            margin: Rect::splat(LengthPercentageAuto::Length(0)),
            padding: Rect::splat(LengthPercentage::Length(0)),
            border: Rect::splat(LengthPercentage::Length(0)),
            align_items: None,
            align_self: None,
            justify_items: None,
            justify_self: None,
            align_content: None,
            justify_content: None,
            gap: Size::splat(LengthPercentage::Length(0)),
            flex_direction: FlexDirection::Row,
            flex_wrap: FlexWrap::NoWrap,
            flex_basis: Dimension::Auto,
            flex_grow: 0,
            flex_shrink: 1000,
        }
    }
}

impl Default for Style {
    fn default() -> (r: Style)
        ensures
            r == Style::spec_default(),
    {
        Style::base()
    }
}

} // verus!

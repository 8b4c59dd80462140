//! Commonly used types, re-exported in one place.

pub use crate::geometry::{Point, Rect, Size};
pub use crate::layout::{
    CacheEntry, CollapsibleMarginSet, Layout, LayoutAlgorithm, LayoutInput, LayoutOutput,
    LayoutSimple, RunMode, SizingMode,
};
pub use crate::normalize::{parse_style, HostValue, RawStyle};
pub use crate::style::{
    AlignContent, AlignItems, AlignSelf, AvailableSpace, Dimension, Display, FlexDirection,
    FlexWrap, JustifyContent, JustifyItems, JustifySelf, LengthPercentage, LengthPercentageAuto,
    Overflow, Position, Style,
};
pub use crate::tree::{Craft3dError, Craft3dResult, Craft3dTree, NodeId};

use vstd::prelude::*;

use crate::widget::Widget;

verus! {

/// The space between the widgets of a row or a column.
#[derive(Clone, Copy, Debug, PartialEq, Eq, Structural)]
pub enum LayoutPadding {
    /// A number of pixels.
    Static(u32),
    /// A fraction (in parts of `FRACTION_ONE`) of the container's extent.
    Dynamic(u32),
}

/// How a container arranges its widgets.
#[derive(Debug, PartialEq, Eq)]
pub enum Layout {
    /// At most one widget, placed absolutely.
    Free(Option<Widget>),
    /// A column of widgets.
    Vertical { widgets: Vec<Widget>, padding: LayoutPadding },
    /// A row of widgets.
    Horizontal { widgets: Vec<Widget>, padding: LayoutPadding },
}

impl Layout {
    /// The widgets of the layout, in order.
    pub open spec fn widgets(self) -> Seq<Widget> {
        match self {
            Layout::Free(Some(w)) => seq![w],
            Layout::Free(None) => seq![],
            Layout::Vertical { widgets, .. } => widgets@,
            Layout::Horizontal { widgets, .. } => widgets@,
        }
    }
}

} // verus!

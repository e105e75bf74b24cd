use vstd::prelude::*;

use crate::command::Command;
use crate::event::Event;
use crate::geometry::FRACTION_ONE;
use crate::geometry::Pivot;
use crate::geometry::Position;
use crate::geometry::Size;
use crate::layout::Layout;
use crate::layout::LayoutPadding;
use crate::view::ContainerView;
use crate::view::white;
use crate::widget::Widget;
use crate::widget::forest_height;
use crate::widget::forest_text;
use crate::widget::retain_unlabelled;
use crate::widget::widgets_to_text;
use crate::widget::without_label;
use crate::widget::lemma_without_single;

verus! {

/// The positioned rendering unit: where it stands on screen, how it is
/// painted, and how it arranges its widgets.
#[derive(Debug, PartialEq, Eq)]
pub struct Container {
    /// A name for the container, used in its dump.
    pub label: String,
    /// The anchor point as fractions of the viewport: `[0, 0]` top left,
    /// `[FRACTION_ONE, FRACTION_ONE]` bottom right.
    pub screen_position: Position,
    /// A pixel offset added to the anchor point.
    pub pixel_position: [i32; 2],
    /// The fractions of the container's own size that lie before the anchor
    /// point: `[0, 0]` anchors the top left corner, the whole anchors the
    /// bottom right one.
    pub pivot: Position,
    pub view: ContainerView,
    pub layout: Layout,
}

/// The view with the given declared size; a `Texture` view, which takes its
/// size from its image, is left as it is.
pub open spec fn view_with_size(view: ContainerView, width: Size, height: Size) -> ContainerView {
    match view {
        ContainerView::Simple { color, .. } => ContainerView::Simple { width, height, color },
        ContainerView::Texture { path, color } => ContainerView::Texture { path, color },
        ContainerView::CellTexture { path, cell_size, color, .. } => ContainerView::CellTexture {
            path,
            width,
            height,
            cell_size,
            color,
        },
    }
}

/// The layout with a widget added: appended to a row or a column, or in place
/// of the widget of a free layout, which holds at most one.
pub open spec fn layout_with_widget(layout: Layout, widget: Widget) -> Seq<Widget> {
    match layout {
        Layout::Free(_) => seq![widget],
        _ => layout.widgets().push(widget),
    }
}

/// The full viewport: one whole fraction on each axis.
pub open spec fn full_extent() -> Size {
    Size::Dynamic(FRACTION_ONE)
}

impl Container {
    /// A fullscreen container: anchored at the top left, covering the whole
    /// viewport in white, with an empty column of widgets.
    pub fn new(label: &str) -> (r: Container)
        ensures
            r.label@ == label@,
            r.screen_position == (Position { x: 0, y: 0 }),
            r.pixel_position == [0i32, 0i32],
            r.pivot == (Position { x: 0, y: 0 }),
            r.view == (ContainerView::Simple { width: full_extent(), height: full_extent(), color: white() }),
            r.layout.widgets().len() == 0,
            r.layout is Vertical,
    {
        Container {
            label: label.to_owned(),
            screen_position: Position::default(),
            pixel_position: [0i32, 0i32],
            pivot: Position::default(),
            view: ContainerView::Simple {
                width: Size::Dynamic(FRACTION_ONE),
                height: Size::Dynamic(FRACTION_ONE),
                color: [255u8, 255u8, 255u8, 255u8],
            },
            layout: Layout::Vertical { widgets: Vec::new(), padding: LayoutPadding::Static(0) },
        }
    }

    /// Sets the anchor point in screen space.
    pub fn set_position(&mut self, position: Position) -> (r: &mut Self)
        ensures
            *r == (Container { screen_position: position, ..*old(self) }),
            *final(self) == *final(r),
    {
        self.screen_position = position;
        self
    }

    /// Sets the declared width and height of the view; a `Texture` view takes
    /// its size from its image and is left as it is.
    pub fn set_size(&mut self, width: Size, height: Size) -> (r: &mut Self)
        ensures
            *r == (Container { view: view_with_size(old(self).view, width, height), ..*old(self) }),
            *final(self) == *final(r),
    {
        match &mut self.view {
            ContainerView::Simple { width: w, height: h, .. } => {
                *w = width;
                *h = height;
            },
            ContainerView::Texture { .. } => {},
            ContainerView::CellTexture { width: w, height: h, .. } => {
                *w = width;
                *h = height;
            },
        }
        self
    }

    /// Sets the pivot to a named anchor.
    pub fn set_pivot(&mut self, pivot: Pivot) -> (r: &mut Self)
        ensures
            *r == (Container { pivot: pivot.spec_position(), ..*old(self) }),
            *final(self) == *final(r),
    {
        self.pivot = pivot.position();
        self
    }

    /// Makes the container cover the whole viewport: anchored at the top left
    /// with no offset, and (but for a `Texture` view) sized to the full
    /// extent on both axes.
    pub fn make_fullscreen(&mut self) -> (r: &mut Self)
        ensures
            *r == (Container {
                screen_position: Position { x: 0, y: 0 },
                pixel_position: [0i32, 0i32],
                pivot: Position { x: 0, y: 0 },
                view: view_with_size(old(self).view, full_extent(), full_extent()),
                ..*old(self)
            }),
            *final(self) == *final(r),
    {
        self.screen_position = Position::default();
        self.pixel_position = [0i32, 0i32];
        self.pivot = Position::default();
        self.set_size(Size::Dynamic(FRACTION_ONE), Size::Dynamic(FRACTION_ONE));
        self
    }

    /// Adds a widget: a row or a column appends it; a free layout, which holds
    /// at most one widget, takes it in place of the one it had.
    pub fn add_widget(&mut self, widget: Widget) -> (r: &mut Self)
        ensures
            r.label == old(self).label,
            r.screen_position == old(self).screen_position,
            r.pixel_position == old(self).pixel_position,
            r.pivot == old(self).pivot,
            r.view == old(self).view,
            r.layout.widgets() == layout_with_widget(old(self).layout, widget),
            (r.layout is Free) == (old(self).layout is Free),
            (r.layout is Vertical) == (old(self).layout is Vertical),
            *final(self) == *final(r),
    {
        match &mut self.layout {
            Layout::Free(w) => {
                *w = Some(widget);
            },
            Layout::Vertical { widgets, .. } => {
                widgets.push(widget);
            },
            Layout::Horizontal { widgets, .. } => {
                widgets.push(widget);
            },
        }
        self
    }

    /// Processes a command: `RemoveWidget` removes every widget of its label
    /// (a free layout whose widget has it is left empty); the pointer and
    /// file commands go on to `process_event`; the others have no effect on
    /// a container.
    pub fn process_command(&mut self, command: Command) -> (r: &mut Self)
        ensures
            r.label == old(self).label,
            r.screen_position == old(self).screen_position,
            r.pixel_position == old(self).pixel_position,
            r.pivot == old(self).pivot,
            r.view == old(self).view,
            (r.layout is Free) == (old(self).layout is Free),
            (r.layout is Vertical) == (old(self).layout is Vertical),
            r.layout.widgets() == match command {
                Command::RemoveWidget { label } => without_label(old(self).layout.widgets(), label@),
                _ => old(self).layout.widgets(),
            },
            *final(self) == *final(r),
    {
        match command {
            Command::RemoveWidget { label } => {
                match &mut self.layout {
                    Layout::Free(slot) => {
                        let remove = match slot {
                            Some(w) => {
                                proof {
                                    lemma_without_single(*w, label@);
                                }
                                w.has_label(&label)
                            },
                            None => {
                                proof {
                                    assert(without_label(seq![], label@) =~= Seq::<Widget>::empty());
                                }
                                false
                            },
                        };
                        if remove {
                            *slot = None;
                        }
                    },
                    Layout::Vertical { widgets, .. } => retain_unlabelled(widgets, &label),
                    Layout::Horizontal { widgets, .. } => retain_unlabelled(widgets, &label),
                }
            },
            other => {
                match other.to_event() {
                    Some(event) => self.process_event(event),
                    None => {},
                }
            },
        }
        self
    }

    /// Processes an event. No event has a defined effect on a container yet:
    /// every one is accepted and leaves it as it was.
    pub fn process_event(&mut self, event: Event)
        ensures
            *final(self) == *old(self),
    {
        match event {
            Event::DroppedFile { .. } => {},
            Event::HoveredFile { .. } => {},
            Event::HoveredFileCanceled => {},
            Event::CursorMoved { .. } => {},
            Event::MouseButton { .. } => {},
        }
    }

    /// Closes the container, which it consumes.
    pub fn close(self) {
    }

    /// The container's dump: `Begin Container(label)`, its widgets one level
    /// deep, and `End Container`.
    pub open spec fn spec_text(self) -> Seq<char> {
        let ws = self.layout.widgets();
        "Begin Container("@ + self.label@ + ")\n"@ + forest_text(ws, ws.len() as int, 1)
            + "End Container\n"@
    }

    /// A diagnostic dump of the container and its widgets.
    pub fn to_text(&self) -> (r: String)
        requires
            forest_height(self.layout.widgets(), self.layout.widgets().len() as int) < usize::MAX - 1,
        ensures
            r@ == self.spec_text(),
    {
        let mut out = String::new();
        out.append("Begin Container(");
        out.append(self.label.as_str());
        out.append(")\n");
        match &self.layout {
            Layout::Free(Some(w)) => {
                let line = w.to_text(1);
                out.append(line.as_str());
                proof {
                    let ws = self.layout.widgets();
                    assert(forest_text(ws, 0, 1) =~= Seq::<char>::empty());
                    assert(forest_height(ws, 0) == 0);
                }
            },
            Layout::Free(None) => {},
            Layout::Vertical { widgets, .. } => {
                let lines = widgets_to_text(widgets, 1);
                out.append(lines.as_str());
            },
            Layout::Horizontal { widgets, .. } => {
                let lines = widgets_to_text(widgets, 1);
                out.append(lines.as_str());
            },
        }
        out.append("End Container\n");
        proof {
            reveal_strlit("Begin Container(");
            reveal_strlit(")\n");
            reveal_strlit("End Container\n");
        }
        out
    }
}

} // verus!

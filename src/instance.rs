use vstd::prelude::*;

use crate::command::Command;
use crate::event::Event;
use crate::geometry::FRACTION_ONE;
use crate::widget::Widget;
use crate::widget::forest_height;
use crate::widget::forest_text;
use crate::widget::lemma_without_label;
use crate::widget::retain_unlabelled;
use crate::widget::widgets_to_text;
use crate::widget::without_label;

verus! {

/// The top level GUI state: the widget forest, the queue of events that the
/// application polls, and the current resolution and scale factor.
#[derive(Debug)]
pub struct Instance {
    widgets: Vec<Widget>,
    event_queue: Vec<Event>,
    resolution: [u32; 2],
    scale_factor: u32,
}

impl Instance {
    /// The top level widgets, in order.
    pub closed spec fn widgets(&self) -> Seq<Widget> {
        self.widgets@
    }

    /// The pending events, oldest first.
    pub closed spec fn events(&self) -> Seq<Event> {
        self.event_queue@
    }

    /// The resolution in pixels, `[width, height]`.
    pub closed spec fn spec_resolution(&self) -> [u32; 2] {
        self.resolution
    }

    /// The scale factor, a fraction in parts of `FRACTION_ONE`.
    pub closed spec fn spec_scale_factor(&self) -> u32 {
        self.scale_factor
    }

    /// An instance with no widget and no event, a resolution of zero and a
    /// scale factor of one.
    pub fn new() -> (r: Instance)
        ensures
            r.widgets().len() == 0,
            r.events().len() == 0,
            r.spec_resolution() == [0u32, 0u32],
            r.spec_scale_factor() == FRACTION_ONE,
    {
        Instance { widgets: Vec::new(), event_queue: Vec::new(), resolution: [0u32, 0u32], scale_factor: FRACTION_ONE }
    }

    /// The resolution in pixels, `[width, height]`.
    pub fn resolution(&self) -> (r: [u32; 2])
        ensures
            r == self.spec_resolution(),
    {
        self.resolution
    }

    /// The scale factor, a fraction in parts of `FRACTION_ONE`.
    pub fn scale_factor(&self) -> (r: u32)
        ensures
            r == self.spec_scale_factor(),
    {
        self.scale_factor
    }

    /// The number of top level widgets.
    pub fn widget_count(&self) -> (r: usize)
        ensures
            r == self.widgets().len(),
    {
        self.widgets.len()
    }

    /// The top level widget at `index`.
    pub fn widget(&self, index: usize) -> (r: &Widget)
        requires
            index < self.widgets().len(),
        ensures
            *r == self.widgets()[index as int],
    {
        &self.widgets[index]
    }

    /// Appends a widget to the top level list.
    pub fn add_widget(&mut self, widget: Widget) -> (r: &mut Self)
        ensures
            r.widgets() == old(self).widgets().push(widget),
            r.events() == old(self).events(),
            r.spec_resolution() == old(self).spec_resolution(),
            r.spec_scale_factor() == old(self).spec_scale_factor(),
            *final(self) == *final(r),
    {
        self.widgets.push(widget);
        self
    }

    /// Removes every top level widget whose label is `label`, keeping the
    /// order of the others; nested windows are not searched.
    pub fn remove_widget(&mut self, label: &str) -> (r: &mut Self)
        ensures
            r.widgets() == without_label(old(self).widgets(), label@),
            r.events() == old(self).events(),
            r.spec_resolution() == old(self).spec_resolution(),
            r.spec_scale_factor() == old(self).spec_scale_factor(),
            *final(self) == *final(r),
    {
        let label = label.to_owned();
        retain_unlabelled(&mut self.widgets, &label);
        self
    }

    /// Processes a command: `Resized` sets the resolution,
    /// `ScaleFactorChanged` the scale factor, `RemoveWidget` removes the
    /// widgets of a label; every other command is accepted and changes nothing.
    pub fn process_command(&mut self, command: Command)
        ensures
            final(self).spec_resolution() == match command {
                Command::Resized { width, height } => [width, height],
                _ => old(self).spec_resolution(),
            },
            final(self).spec_scale_factor() == match command {
                Command::ScaleFactorChanged { scale_factor } => scale_factor,
                _ => old(self).spec_scale_factor(),
            },
            final(self).widgets() == match command {
                Command::RemoveWidget { label } => without_label(old(self).widgets(), label@),
                _ => old(self).widgets(),
            },
            final(self).events() == old(self).events(),
    {
        match command {
            Command::Resized { width, height } => self.resolution = [width, height],
            Command::ScaleFactorChanged { scale_factor } => self.scale_factor = scale_factor,
            Command::RemoveWidget { label } => retain_unlabelled(&mut self.widgets, &label),
            Command::Redraw => {},
            Command::DroppedFile { .. } => {},
            Command::HoveredFile { .. } => {},
            Command::HoveredFileCanceled => {},
            Command::CursorMoved { .. } => {},
            Command::MouseButton { .. } => {},
        }
    }

    /// Queues an event for the application, behind those already pending.
    pub fn push_event(&mut self, event: Event)
        ensures
            final(self).events() == old(self).events().push(event),
            final(self).widgets() == old(self).widgets(),
            final(self).spec_resolution() == old(self).spec_resolution(),
            final(self).spec_scale_factor() == old(self).spec_scale_factor(),
    {
        self.event_queue.push(event);
    }

    /// Takes the oldest pending event, or `None` when there is none.
    pub fn get_event(&mut self) -> (r: Option<Event>)
        ensures
            old(self).events().len() == 0 ==> r is None && final(self).events() == old(self).events(),
            old(self).events().len() > 0 ==> r == Some(old(self).events()[0])
                && final(self).events() == old(self).events().drop_first(),
            final(self).widgets() == old(self).widgets(),
            final(self).spec_resolution() == old(self).spec_resolution(),
            final(self).spec_scale_factor() == old(self).spec_scale_factor(),
    {
        if self.event_queue.len() == 0 {
            None
        } else {
            let event = self.event_queue.remove(0);
            proof {
                assert(self.event_queue@ =~= old(self).event_queue@.drop_first());
            }
            Some(event)
        }
    }

    /// The instance's dump: `Begin Instance`, its widgets one level deep, and
    /// `End Instance`.
    pub open spec fn spec_text(&self) -> Seq<char> {
        "Begin Instance\n"@ + forest_text(self.widgets(), self.widgets().len() as int, 1) + "End Instance\n"@
    }

    /// A diagnostic dump of the instance and its widgets.
    pub fn to_text(&self) -> (r: String)
        requires
            forest_height(self.widgets(), self.widgets().len() as int) < usize::MAX - 1,
        ensures
            r@ == self.spec_text(),
    {
        let mut out = String::new();
        out.append("Begin Instance\n");
        let lines = widgets_to_text(&self.widgets, 1);
        out.append(lines.as_str());
        out.append("End Instance\n");
        proof {
            reveal_strlit("Begin Instance\n");
            reveal_strlit("End Instance\n");
        }
        out
    }
}

/// Adding two widgets of one label and then removing that label leaves no
/// widget of it, all or nothing: the list is the one from before the two
/// were added, with that label removed.
pub proof fn lemma_remove_after_adding_twice(ws: Seq<Widget>, first: Widget, second: Widget, label: Seq<char>)
    requires
        first.label() == label,
        second.label() == label,
    ensures
        without_label(ws.push(first).push(second), label) == without_label(ws, label),
        forall|i: int| 0 <= i < without_label(ws.push(first).push(second), label).len()
            ==> (#[trigger] without_label(ws.push(first).push(second), label)[i]).label() != label,
{
    let once = ws.push(first);
    let twice = once.push(second);
    assert(twice.drop_last() == once && twice.last() == second);
    assert(once.drop_last() == ws && once.last() == first);
    assert(without_label(twice, label) == without_label(once, label));
    assert(without_label(once, label) == without_label(ws, label));
    lemma_without_label(ws.push(first).push(second), label);
}

} // verus!

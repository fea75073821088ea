//! The result of registering a widget: how it was interacted with this pass.
use vstd::prelude::*;
use crate::id::Id;
use crate::layers::LayerId;
use crate::geometry::{Pos2, Rect};
use crate::widget_rect::Sense;

verus! {

/// The interaction flags of a widget for one pass.
#[derive(Clone, Copy, Debug, PartialEq, Eq, Structural)]
pub struct Flags {
    /// The widget is enabled.
    pub enabled: bool,
    /// The pointer is over the widget, whether or not it is hovered.
    pub contains_pointer: bool,
    /// The pointer hovers the widget and nothing else is being interacted with.
    pub hovered: bool,
    /// The widget was asked to look hovered, in the previous pass.
    pub highlighted: bool,
    /// The widget was clicked with the primary button this pass.
    pub clicked: bool,
    /// Space or Enter on the focused widget counts as a primary click.
    pub fake_primary_clicked: bool,
    /// A long, still touch on the widget (a secondary click).
    pub long_touched: bool,
    /// A pointer button is held down on the widget.
    pub is_pointer_button_down_on: bool,
    /// The widget is being dragged.
    pub dragged: bool,
    /// The widget's drag started this pass.
    pub drag_started: bool,
    /// The widget's drag stopped this pass.
    pub drag_stopped: bool,
    /// The data shown by the widget changed.
    pub changed: bool,
    /// The container should close.
    pub close: bool,
}

impl Flags {
    /// No flag set.
    pub fn empty() -> (r: Flags)
        ensures
            !r.enabled && !r.contains_pointer && !r.hovered && !r.highlighted && !r.clicked && !r.fake_primary_clicked
                && !r.long_touched && !r.is_pointer_button_down_on && !r.dragged && !r.drag_started && !r.drag_stopped
                && !r.changed && !r.close,
    {
        Flags {
            enabled: false,
            contains_pointer: false,
            hovered: false,
            highlighted: false,
            clicked: false,
            fake_primary_clicked: false,
            long_touched: false,
            is_pointer_button_down_on: false,
            dragged: false,
            drag_started: false,
            drag_stopped: false,
            changed: false,
            close: false,
        }
    }
}

/// How a widget was interacted with this pass.
#[derive(Clone, Copy, Debug, PartialEq, Eq, Structural)]
pub struct Response {
    pub id: Id,
    pub layer_id: LayerId,
    pub rect: Rect,
    pub interact_rect: Rect,
    pub sense: Sense,
    pub flags: Flags,
    /// Where the pointer was when it interacted with the widget.
    pub interact_pointer_pos: Option<Pos2>,
}

impl Response {
    /// Clicked with the primary button, or by Space/Enter while focused.
    pub fn clicked(&self) -> (r: bool)
        ensures
            r == (self.flags.clicked || self.flags.fake_primary_clicked),
    {
        self.flags.clicked || self.flags.fake_primary_clicked
    }

    /// A long touch, which counts as a secondary click.
    pub fn long_touched(&self) -> (r: bool)
        ensures
            r == self.flags.long_touched,
    {
        self.flags.long_touched
    }

    pub fn enabled(&self) -> (r: bool)
        ensures
            r == self.flags.enabled,
    {
        self.flags.enabled
    }

    pub fn hovered(&self) -> (r: bool)
        ensures
            r == self.flags.hovered,
    {
        self.flags.hovered
    }

    pub fn contains_pointer(&self) -> (r: bool)
        ensures
            r == self.flags.contains_pointer,
    {
        self.flags.contains_pointer
    }

    pub fn is_pointer_button_down_on(&self) -> (r: bool)
        ensures
            r == self.flags.is_pointer_button_down_on,
    {
        self.flags.is_pointer_button_down_on
    }

    pub fn dragged(&self) -> (r: bool)
        ensures
            r == self.flags.dragged,
    {
        self.flags.dragged
    }

    pub fn drag_started(&self) -> (r: bool)
        ensures
            r == self.flags.drag_started,
    {
        self.flags.drag_started
    }

    pub fn drag_stopped(&self) -> (r: bool)
        ensures
            r == self.flags.drag_stopped,
    {
        self.flags.drag_stopped
    }

    pub fn highlighted(&self) -> (r: bool)
        ensures
            r == self.flags.highlighted,
    {
        self.flags.highlighted
    }

    /// Did the data shown by the widget change?
    pub fn changed(&self) -> (r: bool)
        ensures
            r == self.flags.changed,
    {
        self.flags.changed
    }

    /// Report that the data shown by the widget changed.
    pub fn mark_changed(&mut self)
        ensures
            *final(self) == (Response { flags: Flags { changed: true, ..old(self).flags }, ..*old(self) }),
    {
        self.flags.changed = true;
    }

    /// Should the container close?
    pub fn should_close(&self) -> (r: bool)
        ensures
            r == self.flags.close,
    {
        self.flags.close
    }

    /// Ask the container to close.
    pub fn set_close(&mut self)
        ensures
            *final(self) == (Response { flags: Flags { close: true, ..old(self).flags }, ..*old(self) }),
    {
        self.flags.close = true;
    }

    /// Where the pointer was when it interacted with the widget.
    pub fn interact_pointer_pos(&self) -> (r: Option<Pos2>)
        ensures
            r == self.interact_pointer_pos,
    {
        self.interact_pointer_pos
    }

    /// The same response with another rectangle.
    pub fn with_new_rect(self, rect: Rect) -> (r: Response)
        ensures
            r == (Response { rect, ..self }),
    {
        Response { rect, ..self }
    }

    /// The union of two responses of one widget: flags add up, the later
    /// rectangles are kept.
    pub fn union(&self, other: &Response) -> (r: Response)
        ensures
            r.id == self.id,
            r.rect == other.rect,
            r.flags.hovered == (self.flags.hovered || other.flags.hovered),
            r.flags.clicked == (self.flags.clicked || other.flags.clicked),
            r.flags.dragged == (self.flags.dragged || other.flags.dragged),
    {
        let a = self.flags;
        let b = other.flags;
        Response {
            id: self.id,
            layer_id: self.layer_id,
            rect: other.rect,
            interact_rect: other.interact_rect,
            sense: self.sense.union(other.sense),
            flags: Flags {
                enabled: a.enabled || b.enabled,
                contains_pointer: a.contains_pointer || b.contains_pointer,
                hovered: a.hovered || b.hovered,
                highlighted: a.highlighted || b.highlighted,
                clicked: a.clicked || b.clicked,
                fake_primary_clicked: a.fake_primary_clicked || b.fake_primary_clicked,
                long_touched: a.long_touched || b.long_touched,
                is_pointer_button_down_on: a.is_pointer_button_down_on || b.is_pointer_button_down_on,
                dragged: a.dragged || b.dragged,
                drag_started: a.drag_started || b.drag_started,
                drag_stopped: a.drag_stopped || b.drag_stopped,
                changed: a.changed || b.changed,
                close: a.close || b.close,
            },
            interact_pointer_pos: if self.interact_pointer_pos.is_some() { self.interact_pointer_pos } else { other.interact_pointer_pos },
        }
    }
}

} // verus!

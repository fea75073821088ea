//! The state kept between frames: areas, focus, pointer interaction and the
//! open popup.
use vstd::prelude::*;
use std::cmp::Ordering;
use std::collections::HashMap;
use crate::id::Id;
use crate::layers::{LayerId, Order};
use crate::geometry::{Pos2, Rect};
use crate::areas::{Areas, compare_layers};
use crate::focus::{Focus, FocusWidget, EventFilter, KeyEvent, focused_id, new_focus};
use crate::interaction::InteractionState;

verus! {

/// The open popup: its identifier, where it was opened, and whether it was
/// kept open this pass.
#[derive(Clone, Copy, Debug, PartialEq, Eq, Structural)]
pub struct OpenPopup {
    pub id: Id,
    pub pos: Option<Pos2>,
    pub open_this_frame: bool,
}

impl OpenPopup {
    pub fn new(id: Id, pos: Option<Pos2>) -> (r: OpenPopup)
        ensures
            r.id == id,
            r.pos == pos,
            r.open_this_frame,
    {
        OpenPopup { id, pos, open_this_frame: true }
    }
}

/// Is `layer` at or above `modal` in paint order (or is there no modal)?
pub open spec fn above_modal(ranking: Seq<LayerId>, modal: Option<LayerId>, layer: LayerId) -> bool {
    match modal {
        Some(m) => compare_layers(ranking, layer, m) != Ordering::Less,
        None => true,
    }
}

/// The end of a pass for memory: areas are reordered, focus ends its pass
/// (arrow move to `found`, dead-man's switch), and a popup not kept open this
/// pass closes.
pub open spec fn memory_ended(o: Memory, n: Memory, used: Map<u64, Rect>, found: Option<Id>) -> bool {
    &&& n.popup == match o.popup {
        Some(p) => if p.open_this_frame { Some(OpenPopup { open_this_frame: false, ..p }) } else { None },
        None => None,
    }
    &&& n.focus.top_modal_layer == o.focus.top_modal_layer_current_frame
    &&& n.areas.visible_last() == o.areas.visible_current()
    &&& n.areas.visible_current() == Set::<LayerId>::empty()
    &&& n.areas.order_view() == crate::areas::order_after_pass(
        o.areas.order_view(), o.areas.top_requests(), o.areas.sublayer_groups())
    &&& n.areas.ranking() == n.areas.order_view()
    &&& (forall|l: LayerId| #[trigger] n.areas.order_view().contains(l) <==> o.areas.order_view().contains(l))
    &&& crate::areas::class_sorted(n.areas.order_view())
    &&& n.areas.area_map() == o.areas.area_map()
    &&& crate::focus::focus_ended(o.focus, n.focus, used, found)
    &&& n.interaction == o.interaction
}

/// What persists between frames.
pub struct Memory {
    pub areas: Areas,
    pub focus: Focus,
    pub interaction: InteractionState,
    pub popup: Option<OpenPopup>,
    pub everything_is_visible: bool,
}

impl Memory {
    pub open spec fn wf(&self) -> bool {
        self.areas.wf()
    }

    pub fn new() -> (r: Memory)
        ensures
            r.wf(),
            r.focus.focused_widget.is_none(),
            r.popup.is_none(),
            !r.everything_is_visible,
    {
        Memory {
            areas: Areas::new(),
            focus: Focus::new(),
            interaction: InteractionState::new(),
            popup: None,
            everything_is_visible: false,
        }
    }

    /// The start of a pass: focus reads the key events.
    pub fn begin_pass(&mut self, events: &Vec<KeyEvent>)
        requires
            old(self).wf(),
        ensures
            final(self).wf(),
            final(self).areas == old(self).areas,
            final(self).interaction == old(self).interaction,
            final(self).popup == old(self).popup,
            crate::focus::focus_began(old(self).focus, final(self).focus, events@),
    {
        self.focus.begin_pass(events);
    }

    /// The end of a pass: areas are reordered, the dead-man's switch runs on
    /// focus, and a popup that was not kept open this pass closes.
    pub fn end_pass(&mut self, used_ids: &HashMap<u64, Rect>, found_in_direction: Option<Id>)
        requires
            old(self).wf(),
        ensures
            final(self).wf(),
            memory_ended(*old(self), *final(self), used_ids@, found_in_direction),
    {
        self.areas.end_pass();
        self.focus.end_pass(used_ids, found_in_direction);
        match self.popup {
            Some(p) => {
                if p.open_this_frame {
                    self.popup = Some(OpenPopup { id: p.id, pos: p.pos, open_this_frame: false });
                } else {
                    self.popup = None;
                }
            },
            None => {},
        }
    }

    /// The top-most layer at `pos`; below the modal layer, the modal layer
    /// takes the pointer instead.
    pub fn layer_id_at(&self, pos: Pos2) -> (r: Option<LayerId>)
        requires
            self.wf(),
        ensures
            ({
                let top = self.areas.layer_id_at_spec(pos);
                r == match top {
                    Some(l) => if above_modal(self.areas.ranking(), self.focus.top_modal_layer, l) { Some(l) } else { self.focus.top_modal_layer },
                    None => None,
                }
            }),
    {
        match self.areas.layer_id_at(pos) {
            Some(l) => {
                if self.is_above_modal_layer(l) {
                    Some(l)
                } else {
                    self.top_modal_layer()
                }
            },
            None => None,
        }
    }

    /// Did the widget have focus during the previous pass?
    pub fn had_focus_last_frame(&self, id: Id) -> (r: bool)
        ensures
            r == (self.focus.id_previous_frame == Some(id)),
    {
        self.focus.had_focus_last_frame(id)
    }

    /// Did the widget lose focus since the previous pass?
    pub fn lost_focus(&self, id: Id) -> (r: bool)
        ensures
            r == (self.focus.id_previous_frame == Some(id) && focused_id(self.focus.focused_widget) != Some(id)),
    {
        self.had_focus_last_frame(id) && !self.has_focus(id)
    }

    /// Did the widget gain focus since the previous pass?
    pub fn gained_focus(&self, id: Id) -> (r: bool)
        ensures
            r == (self.focus.id_previous_frame != Some(id) && focused_id(self.focus.focused_widget) == Some(id)),
    {
        !self.had_focus_last_frame(id) && self.has_focus(id)
    }

    /// Does the widget have keyboard focus?
    pub fn has_focus(&self, id: Id) -> (r: bool)
        ensures
            r == (focused_id(self.focus.focused_widget) == Some(id)),
    {
        match self.focus.focused() {
            Some(f) => f == id,
            None => false,
        }
    }

    /// Which widget has keyboard focus?
    pub fn focused(&self) -> (r: Option<Id>)
        ensures
            r == focused_id(self.focus.focused_widget),
    {
        self.focus.focused()
    }

    /// Let the focused widget keep some navigation keys. Only a widget that had
    /// focus last pass and still has it can do so.
    pub fn set_focus_lock_filter(&mut self, id: Id, filter: EventFilter)
        ensures
            (old(self).focus.id_previous_frame == Some(id) && focused_id(old(self).focus.focused_widget) == Some(id))
                ==> final(self).focus.focused_widget == Some(FocusWidget { id, filter }),
            !(old(self).focus.id_previous_frame == Some(id) && focused_id(old(self).focus.focused_widget) == Some(id))
                ==> final(self).focus.focused_widget == old(self).focus.focused_widget,
            final(self).focus.id_previous_frame == old(self).focus.id_previous_frame,
            final(self).areas == old(self).areas,
    {
        if self.had_focus_last_frame(id) && self.has_focus(id) {
            self.focus.focused_widget = Some(FocusWidget { id, filter });
        }
    }

    /// Give keyboard focus to the widget.
    pub fn request_focus(&mut self, id: Id)
        ensures
            final(self).focus == (Focus { focused_widget: Some(new_focus(id)), ..old(self).focus }),
            final(self).areas == old(self).areas,
            final(self).interaction == old(self).interaction,
            final(self).popup == old(self).popup,
    {
        self.focus.focused_widget = Some(FocusWidget::new(id));
    }

    /// Give up focus, if the widget has it.
    pub fn surrender_focus(&mut self, id: Id)
        ensures
            final(self).focus == (Focus {
                focused_widget: if focused_id(old(self).focus.focused_widget) == Some(id) {
                    None
                } else {
                    old(self).focus.focused_widget
                },
                ..old(self).focus
            }),
            final(self).areas == old(self).areas,
            final(self).interaction == old(self).interaction,
            final(self).popup == old(self).popup,
    {
        if self.has_focus(id) {
            self.focus.focused_widget = None;
        }
    }

    /// Stop editing the focused text field, if any.
    pub fn stop_text_input(&mut self)
        ensures
            final(self).focus.focused_widget.is_none(),
            final(self).areas == old(self).areas,
    {
        self.focus.focused_widget = None;
    }

    /// Is the layer the top-most modal layer of the previous pass or above it
    /// (or is there no modal layer)?
    pub fn is_above_modal_layer(&self, layer_id: LayerId) -> (r: bool)
        requires
            self.wf(),
        ensures
            r == above_modal(self.areas.ranking(), self.focus.top_modal_layer, layer_id),
    {
        match self.focus.top_modal_layer {
            Some(m) => {
                match self.areas.compare_order(layer_id, m) {
                    Ordering::Less => false,
                    _ => true,
                }
            },
            None => true,
        }
    }

    /// Can widgets on this layer be interacted with: not behind the modal
    /// layer, and of an interactive order class?
    pub fn allows_interaction(&self, layer_id: LayerId) -> (r: bool)
        requires
            self.wf(),
        ensures
            r == (above_modal(self.areas.ranking(), self.focus.top_modal_layer, layer_id) && layer_id.order != Order::Debug),
    {
        self.is_above_modal_layer(layer_id) && layer_id.allow_interaction()
    }

    /// A focusable widget on `layer_id` announces itself, unless its layer
    /// does not allow interaction.
    pub fn interested_in_focus(&mut self, id: Id, layer_id: LayerId)
        requires
            old(self).wf(),
        ensures
            final(self).wf(),
            final(self).areas == old(self).areas,
            !(above_modal(old(self).areas.ranking(), old(self).focus.top_modal_layer, layer_id) && layer_id.order != Order::Debug)
                ==> final(self).focus == old(self).focus,
            (above_modal(old(self).areas.ranking(), old(self).focus.top_modal_layer, layer_id) && layer_id.order != Order::Debug)
                ==> crate::focus::focus_interest(old(self).focus, final(self).focus, id),
            final(self).interaction == old(self).interaction,
            final(self).popup == old(self).popup,
    {
        if !self.allows_interaction(layer_id) {
            return;
        }
        self.focus.interested_in_focus(id);
    }

    /// Limit focus and interaction to this layer and those above it, from the
    /// next pass on. Of several requests in a pass the top-most wins.
    pub fn set_modal_layer(&mut self, layer_id: LayerId)
        requires
            old(self).wf(),
        ensures
            final(self).wf(),
            final(self).areas == old(self).areas,
            final(self).focus == (Focus {
                top_modal_layer_current_frame: match old(self).focus.top_modal_layer_current_frame {
                    Some(c) => if compare_layers(old(self).areas.ranking(), layer_id, c) == Ordering::Less { Some(c) } else { Some(layer_id) },
                    None => Some(layer_id),
                },
                ..old(self).focus
            }),
    {
        match self.focus.top_modal_layer_current_frame {
            Some(c) => {
                match self.areas.compare_order(layer_id, c) {
                    Ordering::Less => {
                        return;
                    },
                    _ => {},
                }
            },
            None => {},
        }
        self.focus.set_modal_layer(layer_id);
    }

    /// The top-most modal layer of the previous pass.
    pub fn top_modal_layer(&self) -> (r: Option<LayerId>)
        ensures
            r == self.focus.top_modal_layer,
    {
        self.focus.top_modal_layer()
    }

    /// Forget all area positions and the layer order.
    pub fn reset_areas(&mut self)
        ensures
            final(self).wf(),
            final(self).areas.order_view().len() == 0,
            final(self).areas.area_map() == Map::<u64, crate::areas::AreaState>::empty(),
    {
        self.areas = Areas::new();
    }

    /// The rectangle of an area in the previous pass.
    pub fn area_rect(&self, id: Id) -> (r: Option<Rect>)
        ensures
            r == (if self.areas.area_map().contains_key(id.0) { Some(self.areas.area_map()[id.0].rect) } else { None::<Rect> }),
    {
        match self.areas.get(id) {
            Some(s) => Some(s.rect),
            None => None,
        }
    }

    /// Is this popup open (or is everything shown)?
    pub fn is_popup_open(&self, popup_id: Id) -> (r: bool)
        ensures
            r == (match self.popup { Some(p) => p.id == popup_id, None => false } || self.everything_is_visible),
    {
        let open = match self.popup {
            Some(p) => p.id == popup_id,
            None => false,
        };
        open || self.everything_is_visible
    }

    /// Is any popup open (or is everything shown)?
    pub fn any_popup_open(&self) -> (r: bool)
        ensures
            r == (self.popup.is_some() || self.everything_is_visible),
    {
        self.popup.is_some() || self.everything_is_visible
    }

    /// Open this popup and close any other.
    pub fn open_popup(&mut self, popup_id: Id)
        ensures
            final(self).popup == Some(OpenPopup { id: popup_id, pos: None, open_this_frame: true }),
            final(self).everything_is_visible == old(self).everything_is_visible,
            final(self).areas == old(self).areas,
    {
        self.popup = Some(OpenPopup::new(popup_id, None));
    }

    /// Open this popup at a position and close any other.
    pub fn open_popup_at(&mut self, popup_id: Id, pos: Option<Pos2>)
        ensures
            final(self).popup == Some(OpenPopup { id: popup_id, pos, open_this_frame: true }),
            final(self).everything_is_visible == old(self).everything_is_visible,
            final(self).areas == old(self).areas,
    {
        self.popup = Some(OpenPopup::new(popup_id, pos));
    }

    /// A popup that is open calls this every pass, else it closes.
    pub fn keep_popup_open(&mut self, popup_id: Id)
        ensures
            final(self).popup == match old(self).popup {
                Some(p) => if p.id == popup_id { Some(OpenPopup { open_this_frame: true, ..p }) } else { Some(p) },
                None => None,
            },
            final(self).everything_is_visible == old(self).everything_is_visible,
            final(self).areas == old(self).areas,
    {
        match self.popup {
            Some(p) => {
                if p.id == popup_id {
                    self.popup = Some(OpenPopup { id: p.id, pos: p.pos, open_this_frame: true });
                }
            },
            None => {},
        }
    }

    /// Where this popup was opened, if it is the open one.
    pub fn popup_position(&self, popup_id: Id) -> (r: Option<Pos2>)
        ensures
            r == match self.popup {
                Some(p) => if p.id == popup_id { p.pos } else { None },
                None => None,
            },
    {
        match self.popup {
            Some(p) => if p.id == popup_id { p.pos } else { None },
            None => None,
        }
    }

    /// Close any open popup.
    pub fn close_all_popups(&mut self)
        ensures
            final(self).popup.is_none(),
            final(self).everything_is_visible == old(self).everything_is_visible,
            final(self).areas == old(self).areas,
    {
        self.popup = None;
    }

    /// Close this popup if it is open (when everything is shown, any popup).
    pub fn close_popup(&mut self, popup_id: Id)
        ensures
            final(self).popup == (if (match old(self).popup { Some(p) => p.id == popup_id, None => false } || old(self).everything_is_visible) {
                None
            } else {
                old(self).popup
            }),
            final(self).everything_is_visible == old(self).everything_is_visible,
            final(self).areas == old(self).areas,
    {
        if self.is_popup_open(popup_id) {
            self.popup = None;
        }
    }

    /// Close this popup if it is open, else open it.
    pub fn toggle_popup(&mut self, popup_id: Id)
        ensures
            (match old(self).popup { Some(p) => p.id == popup_id, None => false } || old(self).everything_is_visible)
                ==> final(self).popup.is_none(),
            !(match old(self).popup { Some(p) => p.id == popup_id, None => false } || old(self).everything_is_visible)
                ==> final(self).popup == Some(OpenPopup { id: popup_id, pos: None, open_this_frame: true }),
            final(self).everything_is_visible == old(self).everything_is_visible,
            final(self).areas == old(self).areas,
    {
        if self.is_popup_open(popup_id) {
            self.close_popup(popup_id);
        } else {
            self.open_popup(popup_id);
        }
    }

    /// Are all windows, menus and tooltips shown at once?
    pub fn everything_is_visible(&self) -> (r: bool)
        ensures
            r == self.everything_is_visible,
    {
        self.everything_is_visible
    }

    /// The areas and layer order.
    pub fn areas(&self) -> (r: &Areas)
        ensures
            r == &self.areas,
    {
        &self.areas
    }

    /// Show all windows, menus and tooltips at once (for tests and
    /// benchmarks).
    pub fn set_everything_is_visible(&mut self, value: bool)
        ensures
            final(self).everything_is_visible == value,
            final(self).popup == old(self).popup,
            final(self).areas == old(self).areas,
    {
        self.everything_is_visible = value;
    }
}

impl Default for Memory {
    fn default() -> (r: Memory)
        ensures
            r.wf(),
            r.focus.focused_widget.is_none(),
            r.popup.is_none(),
            !r.everything_is_visible,
    {
        Memory::new()
    }
}

} // verus!

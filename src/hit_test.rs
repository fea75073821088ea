//! Finding the widgets under the pointer.
use vstd::prelude::*;
use crate::layers::LayerId;
use crate::geometry::{Pos2, Rect};
use crate::widget_rect::{WidgetRect, WidgetRects, on_layer};
use crate::interaction::WidgetHits;

verus! {

/// Is `p` within `radius` of the rectangle (each axis separately)?
pub open spec fn near_rect(r: Rect, p: Pos2, radius: int) -> bool {
    r.min.x - radius <= p.x && p.x <= r.max.x + radius && r.min.y - radius <= p.y && p.y <= r.max.y + radius
}

pub open spec fn near(p: Pos2, radius: int) -> spec_fn(WidgetRect) -> bool {
    |w: WidgetRect| near_rect(w.interact_rect, p, radius)
}

pub open spec fn clickable() -> spec_fn(WidgetRect) -> bool {
    |w: WidgetRect| w.enabled && w.sense.click
}

pub open spec fn draggable() -> spec_fn(WidgetRect) -> bool {
    |w: WidgetRect| w.enabled && w.sense.drag
}

pub open spec fn last_of(s: Seq<WidgetRect>) -> Option<WidgetRect> {
    if s.len() > 0 { Some(s.last()) } else { None }
}

/// The widgets of layer `l` near the pointer, back to front.
pub open spec fn near_in_layer(widgets: Seq<WidgetRect>, l: LayerId, p: Pos2, radius: int) -> Seq<WidgetRect> {
    widgets.filter(on_layer(l)).filter(near(p, radius))
}

/// The index of the first layer (top-most first) with a widget near the
/// pointer, or the number of layers.
pub open spec fn owning_layer(widgets: Seq<WidgetRect>, layers: Seq<LayerId>, p: Pos2, radius: int, from: nat) -> nat
    decreases layers.len() - from,
{
    if from >= layers.len() {
        layers.len()
    } else if near_in_layer(widgets, layers[from as int], p, radius).len() > 0 {
        from
    } else {
        owning_layer(widgets, layers, p, radius, from + 1)
    }
}

fn near_exec(r: &Rect, p: Pos2, radius: i64) -> (b: bool)
    ensures
        b == near_rect(*r, p, radius as int),
{
    let rad = radius as i128;
    (r.min.x as i128) - rad <= p.x as i128 && (p.x as i128) <= (r.max.x as i128) + rad
        && (r.min.y as i128) - rad <= p.y as i128 && (p.y as i128) <= (r.max.y as i128) + rad
}

/// Hits within one layer: every widget near the pointer, those that hold it,
/// and the top-most enabled ones near it that sense clicks and drags.
fn hits_in_layer(ws: &Vec<WidgetRect>, p: Pos2, radius: i64) -> (r: WidgetHits)
    ensures
        r.close@ == ws@.filter(near(p, radius as int)),
        r.contains_pointer@ == ws@.filter(near(p, radius as int)).filter(near(p, 0)),
        r.click == last_of(ws@.filter(near(p, radius as int)).filter(clickable())),
        r.drag == last_of(ws@.filter(near(p, radius as int)).filter(draggable())),
{
    let mut close: Vec<WidgetRect> = Vec::new();
    let mut contains: Vec<WidgetRect> = Vec::new();
    let mut click: Option<WidgetRect> = None;
    let mut drag: Option<WidgetRect> = None;
    let mut i: usize = 0;
    while i < ws.len()
        invariant
            i <= ws@.len(),
            close@ == ws@.take(i as int).filter(near(p, radius as int)),
            contains@ == close@.filter(near(p, 0)),
            click == last_of(close@.filter(clickable())),
            drag == last_of(close@.filter(draggable())),
        decreases ws@.len() - i,
    {
        let w = ws[i];
        proof {
            assert(ws@.take(i + 1) =~= ws@.take(i as int).push(w));
            ws@.take(i as int).lemma_filter_push(w, near(p, radius as int));
        }
        if near_exec(&w.interact_rect, p, radius) {
            proof {
                close@.lemma_filter_push(w, clickable());
                close@.lemma_filter_push(w, draggable());
                close@.lemma_filter_push(w, near(p, 0));
            }
            close.push(w);
            if near_exec(&w.interact_rect, p, 0) {
                contains.push(w);
            }
            if w.enabled && w.sense.click {
                click = Some(w);
            }
            if w.enabled && w.sense.drag {
                drag = Some(w);
            }
        }
        i = i + 1;
    }
    proof {
        assert(ws@.take(i as int) =~= ws@);
    }
    WidgetHits { click, drag, contains_pointer: contains, close }
}

/// The hits for pointer `pos`: the first layer, top-most first, with any
/// widget near the pointer owns it; lower layers are never considered.
pub open spec fn hit_test_result(widgets: Seq<WidgetRect>, layers: Seq<LayerId>, pos: Pos2, radius: int, r: WidgetHits) -> bool {
    let k = owning_layer(widgets, layers, pos, radius, 0);
    if k < layers.len() {
        let near_ws = near_in_layer(widgets, layers[k as int], pos, radius);
        &&& r.close@ == near_ws
        &&& r.contains_pointer@ == near_ws.filter(near(pos, 0))
        &&& r.click == last_of(near_ws.filter(clickable()))
        &&& r.drag == last_of(near_ws.filter(draggable()))
    } else {
        &&& r.contains_pointer@.len() == 0
        &&& r.close@.len() == 0
        &&& r.click.is_none()
        &&& r.drag.is_none()
    }
}

/// The widgets under the pointer (see `hit_test_result`).
pub fn hit_test(widgets: &WidgetRects, layers_top_first: &Vec<LayerId>, pos: Pos2, radius: i64) -> (r: WidgetHits)
    ensures
        hit_test_result(widgets.widgets(), layers_top_first@, pos, radius as int, r),
{
    let mut i: usize = 0;
    while i < layers_top_first.len()
        invariant
            i <= layers_top_first@.len(),
            owning_layer(widgets.widgets(), layers_top_first@, pos, radius as int, 0)
                == owning_layer(widgets.widgets(), layers_top_first@, pos, radius as int, i as nat),
        decreases layers_top_first@.len() - i,
    {
        let ws = widgets.get_layer(layers_top_first[i]);
        let h = hits_in_layer(&ws, pos, radius);
        if h.close.len() > 0 {
            return h;
        }
        i = i + 1;
    }
    WidgetHits { click: None, drag: None, contains_pointer: Vec::new(), close: Vec::new() }
}

} // verus!

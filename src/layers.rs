//! Paint layers and their order classes.
use vstd::prelude::*;
use crate::id::Id;

verus! {

/// The paint order class of a layer, from back to front.
#[derive(Clone, Copy, Debug, PartialEq, Eq, Structural, Hash, PartialOrd, Ord)]
pub enum Order {
    /// Painted behind all floating areas: panels and the central background.
    Background,
    /// The low floating stack, just above the background: panel resize lines.
    PanelResizeLine,
    /// Normal floating windows.
    Middle,
    /// Overlays above windows: popups, menus.
    Foreground,
    /// Tooltips, above everything interactive.
    Tooltip,
    /// Debug overlays, painted last and never interactive.
    Debug,
}

/// The position of an order class, back (0) to front (5).
pub open spec fn order_rank(o: Order) -> nat {
    match o {
        Order::Background => 0,
        Order::PanelResizeLine => 1,
        Order::Middle => 2,
        Order::Foreground => 3,
        Order::Tooltip => 4,
        Order::Debug => 5,
    }
}

/// The number of order classes.
pub const NUM_ORDERS: usize = 6;

impl Order {
    /// The position of this class, back (0) to front.
    pub fn rank(self) -> (r: usize)
        ensures
            r as nat == order_rank(self),
            r < NUM_ORDERS,
    {
        match self {
            Order::Background => 0,
            Order::PanelResizeLine => 1,
            Order::Middle => 2,
            Order::Foreground => 3,
            Order::Tooltip => 4,
            Order::Debug => 5,
        }
    }

    /// Can widgets on layers of this class be interacted with?
    pub fn allow_interaction(self) -> (r: bool)
        ensures
            r == (self != Order::Debug),
    {
        match self {
            Order::Debug => false,
            _ => true,
        }
    }
}

/// An independently ordered paint region: its order class and an identifier.
#[derive(Clone, Copy, Debug, PartialEq, Eq, Structural, Hash)]
pub struct LayerId {
    pub order: Order,
    pub id: Id,
}

impl LayerId {
    /// The layer of the background area.
    pub open spec fn background_spec() -> LayerId {
        LayerId { order: Order::Background, id: Id(crate::id::NULL_ID_VALUE) }
    }

    pub fn new(order: Order, id: Id) -> (r: LayerId)
        ensures
            r.order == order,
            r.id == id,
    {
        LayerId { order, id }
    }

    /// The layer of the background area, which covers the whole screen.
    pub fn background() -> (r: LayerId)
        ensures
            r == LayerId::background_spec(),
    {
        LayerId { order: Order::Background, id: Id::null() }
    }

    /// The layer for debug painting, above all others.
    pub fn debug() -> (r: LayerId)
        ensures
            r.order == Order::Debug,
            r.id.0 == crate::id::NULL_ID_VALUE,
    {
        LayerId { order: Order::Debug, id: Id::null() }
    }

    /// Can widgets on this layer be interacted with?
    pub fn allow_interaction(self) -> (r: bool)
        ensures
            r == (self.order != Order::Debug),
    {
        self.order.allow_interaction()
    }
}

} // verus!

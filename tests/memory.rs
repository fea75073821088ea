use egui::areas::{AreaState, Areas};
use egui::geometry::Rect;
use egui::id::Id;
use egui::layers::{LayerId, Order};

#[test]
fn order_map_total_ordering() {
    let mut layers = [
        LayerId::new(Order::Tooltip, Id::new("a")),
        LayerId::new(Order::Background, Id::new("b")),
        LayerId::new(Order::Background, Id::new("c")),
        LayerId::new(Order::Tooltip, Id::new("d")),
        LayerId::new(Order::Background, Id::new("e")),
        LayerId::new(Order::Background, Id::new("f")),
        LayerId::new(Order::Tooltip, Id::new("g")),
    ];
    let mut areas = Areas::new();

    // skip some of the layers
    for &layer in &layers[3..] {
        areas.set_state(layer, AreaState::new(Rect::nothing(), true));
    }
    areas.end_pass(); // sort layers

    // Sort layers
    layers.sort_by(|&a, &b| areas.compare_order(a, b));

    // Assert that `areas.compare_order()` forms a total ordering
    let mut equivalence_classes = vec![0];
    let mut i = 0;
    for l in layers.windows(2) {
        assert!(l[0].order <= l[1].order, "does not follow LayerId.order");
        if areas.compare_order(l[0], l[1]) != std::cmp::Ordering::Equal {
            i += 1;
        }
        equivalence_classes.push(i);
    }
    assert_eq!(layers.len(), equivalence_classes.len());
    for (&l1, c1) in std::iter::zip(&layers, &equivalence_classes) {
        for (&l2, c2) in std::iter::zip(&layers, &equivalence_classes) {
            assert_eq!(c1.cmp(c2), areas.compare_order(l1, l2), "not a total ordering",);
        }
    }
}

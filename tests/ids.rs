use egui::id::Id;

#[test]
fn ids_are_stable_and_distinct() {
    assert_eq!(Id::new("a"), Id::new("a"));
    assert_ne!(Id::new("a"), Id::new("b"));
    let parent = Id::new("window");
    assert_eq!(parent.with("x"), parent.with("x"));
    assert_ne!(parent.with("x"), parent.with("y"));
    assert_ne!(parent.with("x"), parent);
    assert_ne!(Id::new("a").value(), 0);
}

#[test]
fn from_hash_avoids_zero() {
    assert_eq!(Id::from_hash(0).value(), 1);
    assert_eq!(Id::from_hash(42).value(), 42);
}

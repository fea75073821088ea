//! The per-frame interaction and state-retention core of an immediate-mode GUI:
//! layer ordering, focus tracking, drag resolution, the multi-pass protocol,
//! repaint scheduling and animation state, each with a checked contract.

pub mod id;
pub mod layers;
pub mod animation;
pub mod repaint;
pub mod geometry;
pub mod areas;
pub mod focus;
pub mod widget_rect;
pub mod interaction;
pub mod memory;
pub mod hit_test;
pub mod pass;
pub mod response;
pub mod context;
pub mod viewports;

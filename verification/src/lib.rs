//! Logic of a touch-driven breadboard: wires between grid columns are drawn by
//! dragging across a label row, kept in a bounded set, and packed into tracks.

pub mod breadboard;
pub mod ch446;
pub mod controller;
pub mod lanes;
pub mod minimal;
pub mod model;
pub mod order;
pub mod packing;
pub mod picker;
pub mod queue;
pub mod red_screen;
pub mod selection;
pub mod store;
pub mod touchscreen;
pub mod view;
pub mod view_model;
pub mod web_screen;
pub mod xpt2046;

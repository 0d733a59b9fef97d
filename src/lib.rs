//! Property animation for UI elements: rectangles interpolated over time with an
//! easing curve, paced to a frame-rate cap, queued, paused, resumed and dropped
//! through a command protocol.
//!
//! Geometry is held in whole units of the host's coordinate space, time in
//! milliseconds, and progress as a fixed-point fraction of
//! [`fixed::PROGRESS_ONE`].
pub mod animation;
pub mod animation_builder;
pub mod animation_controller;
pub mod animation_queue;
mod arith;
pub mod css;
pub mod curves;
pub mod easing;
pub mod fixed;
pub mod flipbook;
pub mod rect;
pub mod rectdata;
pub mod stopwatch;

//! A retained-mode UI toolkit core: widgets negotiate size through box
//! constraints, route pointer and keyboard input with hit testing and hover
//! tracking, and describe their appearance as a list of drawing commands
//! that a 2D canvas backend can replay.

pub mod application_model;
pub mod constraints;
pub mod widget;
pub mod display;
pub mod geometry;
pub mod laws;
pub mod queue;
pub mod style;
pub mod user_interface;
pub mod window_event;

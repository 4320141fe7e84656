//! A fixed-rate terminal dashboard refresh loop: display state, tick clock,
//! loop decisions, band layout and terminal session bookkeeping.

pub mod display;
pub mod clock;
pub mod render;
pub mod layout;
pub mod session;

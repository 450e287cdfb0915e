//! Recording sessions: which thread a recording goes into, and the calendar
//! facts it carries.

pub mod model;
pub mod selection;
pub mod state;
pub mod workflow;

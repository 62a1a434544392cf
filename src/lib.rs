//! A calendar date picker: the calendar arithmetic, the month grid and the
//! state machine that turns pointer input into date changes.

pub mod calendar;
pub mod text;
pub mod picker;

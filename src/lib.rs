//! Month-view calendar grids: which day numbers fill the cells of a
//! seven-column calendar page for a given year and month.

pub mod calendar;
pub mod grid;

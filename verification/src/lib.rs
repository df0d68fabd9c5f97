//! Layout engine for a Monday-Friday weekly timetable on a fixed
//! half-hour grid: time-of-day parsing, grid placement of courses,
//! date-keyed lesson lookup, week navigation and the derived view model.

pub mod layout;
pub mod lesson_data;
pub mod navigation;
pub mod placement;
pub mod time_axis;
pub mod week;

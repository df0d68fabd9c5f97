//! Placement of one course on the grid: its start/end times converted into
//! a validated span of rows in a known weekday column.

use vstd::prelude::*;
use crate::lesson_data::Course;
use crate::time_axis::{
    MalformedTimeError, hour_of, minute_of, slot_of, slot_offset, valid_time_text,
};

verus! {

/// A course's position on the grid: a 0-based weekday column (Monday = 0
/// .. Friday = 4), a 1-based starting row (row 1 is the header row) and a
/// positive row count.
#[derive(Clone, Copy, Debug, PartialEq, Eq, Structural)]
pub struct GridSpan {
    pub column_index: usize,
    pub row_start: i64,
    pub row_length: i64,
}

/// Why one course cannot be placed. The caller keeps the course at hand, so
/// the offending entry is identified by the pair it reports, and one bad
/// course never hinders the placement of the others.
#[derive(Clone, Copy, Debug, PartialEq, Eq, Structural)]
pub enum PlacementError {
    /// One of the course's times is not readable `"H:MM"` text.
    MalformedTime,
    /// The course's span is invalid: it starts at or before the first slot
    /// boundary of the axis, or it does not end strictly after it starts.
    InvalidCourseSpan,
}

/// The slot pair of a placeable course: a start strictly after the axis
/// origin, an end strictly after the start (and hence also positive).
pub open spec fn span_slots_valid(start_slot: int, end_slot: int) -> bool {
    start_slot > 0 && end_slot > 0 && start_slot < end_slot
}

/// What placing a course at a column returns, as a function of its two time
/// texts: malformed text is rejected first, then an invalid span; a placed
/// course occupies `end_slot - start_slot` rows from row `start_slot + 1`
/// (1-based, after the header row).
pub open spec fn spec_place(start: Seq<char>, end: Seq<char>, column: int) -> Result<
    GridSpan,
    PlacementError,
> {
    if !valid_time_text(start) || !valid_time_text(end) {
        Err(PlacementError::MalformedTime)
    } else {
        let s = slot_of(hour_of(start), minute_of(start));
        let e = slot_of(hour_of(end), minute_of(end));
        if span_slots_valid(s, e) {
            Ok(
                GridSpan {
                    column_index: column as usize,
                    row_start: (s + 1) as i64,
                    row_length: (e - s) as i64,
                },
            )
        } else {
            Err(PlacementError::InvalidCourseSpan)
        }
    }
}

/// Converts one course into its grid span for the given weekday column.
/// The column is supplied by the caller (the weekday of the date the course
/// belongs to), never derived from the course itself.
pub fn place(course: &Course, weekday_column: usize) -> (r: Result<GridSpan, PlacementError>)
    requires
        weekday_column < 5,
    ensures
        r == spec_place(course.start@, course.end@, weekday_column as int),
{
    let start_slot = match slot_offset(course.start.as_str()) {
        Ok(s) => s,
        Err(MalformedTimeError) => {
            return Err(PlacementError::MalformedTime);
        },
    };
    let end_slot = match slot_offset(course.end.as_str()) {
        Ok(s) => s,
        Err(MalformedTimeError) => {
            return Err(PlacementError::MalformedTime);
        },
    };
    if start_slot > 0 && end_slot > 0 && start_slot < end_slot {
        Ok(
            GridSpan {
                column_index: weekday_column,
                row_start: start_slot + 1,
                row_length: end_slot - start_slot,
            },
        )
    } else {
        Err(PlacementError::InvalidCourseSpan)
    }
}

/// On the half-hour grid, comparing times by minutes-since-midnight and by
/// slot index agree; placement therefore rejects a course as an invalid
/// span exactly when its start is not before its end in minutes, or its
/// start lies at or before the first slot boundary of the axis.
pub proof fn lemma_invalid_span_iff(start: Seq<char>, end: Seq<char>, column: int)
    requires
        valid_time_text(start),
        valid_time_text(end),
        minute_of(start) % 30 == 0,
        minute_of(end) % 30 == 0,
    ensures
        spec_place(start, end, column) == Err::<GridSpan, PlacementError>(
            PlacementError::InvalidCourseSpan,
        ) <==> (hour_of(start) * 60 + minute_of(start) >= hour_of(end) * 60 + minute_of(end)
            || slot_of(hour_of(start), minute_of(start)) <= 0),
{
    let h1 = hour_of(start);
    let m1 = minute_of(start);
    let h2 = hour_of(end);
    let m2 = minute_of(end);
    let q1 = m1 / 30;
    let q2 = m2 / 30;
    assert(m1 == 30 * q1);
    assert(m2 == 30 * q2);
    assert(slot_of(h1, m1) == (h1 - 7) * 2 + q1);
    assert(slot_of(h2, m2) == (h2 - 7) * 2 + q2);
    assert(h1 * 60 + m1 >= h2 * 60 + m2 <==> slot_of(h1, m1) >= slot_of(h2, m2)) by {
        assert(h1 * 60 + 30 * q1 >= h2 * 60 + 30 * q2 <==> 2 * h1 + q1 >= 2 * h2 + q2)
            by (nonlinear_arith);
    }
    if span_slots_valid(slot_of(h1, m1), slot_of(h2, m2)) {
    } else {
        if slot_of(h1, m1) > 0 && slot_of(h1, m1) < slot_of(h2, m2) {
            assert(slot_of(h2, m2) > 0);
        }
    }
}

} // verus!

//! The derivation pipeline for one render pass: from today's date, the
//! navigation offset and the lesson data to a fully computed week plan —
//! anchor Monday, five dated weekday columns, axis labels, and each day's
//! placed and rejected courses. Every stage is a pure function of its
//! inputs; a navigation change recomputes the whole plan, so no stale
//! intermediate state can ever be observed.

use vstd::prelude::*;
use crate::lesson_data::{Course, LessonData};
use crate::placement::{GridSpan, PlacementError, spec_place, place};
use crate::time_axis::{axis_labels, axis_labels_wf};
use crate::week::{
    AnchorError, Date, MIN_DAY_NUMBER, MAX_DAY_NUMBER, date_label_of, resolve_base_monday,
    resolve_week, spec_base_monday, spec_resolve_week, visible_dates, week_target,
};

verus! {

/// One weekday column of the plan: its date text, its 0-based column, the
/// courses placed on the grid, and the courses rejected with the reason —
/// a rejected course never hinders the placement of the others.
pub struct DayPlan {
    pub date: String,
    pub column_index: usize,
    pub placed: Vec<(Course, GridSpan)>,
    pub rejected: Vec<(Course, PlacementError)>,
}

/// The fully computed view model of one week: the anchor Monday, the fixed
/// axis labels, and the five weekday columns Monday through Friday.
pub struct WeekPlan {
    pub week_monday: Date,
    pub axis_labels: Vec<String>,
    pub days: Vec<DayPlan>,
}

/// The courses of a day that place successfully, in source order, each with
/// its grid span.
pub open spec fn spec_placed(courses: Seq<Course>, column: int) -> Seq<(Course, GridSpan)>
    decreases courses.len(),
{
    if courses.len() == 0 {
        Seq::empty()
    } else {
        let init = spec_placed(courses.drop_last(), column);
        match spec_place(courses.last().start@, courses.last().end@, column) {
            Ok(g) => init.push((courses.last(), g)),
            Err(_) => init,
        }
    }
}

/// The courses of a day that placement rejects, in source order, each with
/// the reason.
pub open spec fn spec_rejected(courses: Seq<Course>, column: int) -> Seq<(Course, PlacementError)>
    decreases courses.len(),
{
    if courses.len() == 0 {
        Seq::empty()
    } else {
        let init = spec_rejected(courses.drop_last(), column);
        match spec_place(courses.last().start@, courses.last().end@, column) {
            Ok(_) => init,
            Err(e) => init.push((courses.last(), e)),
        }
    }
}

/// Splits one day's courses into placed and rejected entries for the given
/// weekday column, keeping source order on both sides.
pub fn place_day(courses: &Vec<Course>, column: usize) -> (r: (
    Vec<(Course, GridSpan)>,
    Vec<(Course, PlacementError)>,
))
    requires
        column < 5,
    ensures
        r.0@ == spec_placed(courses@, column as int),
        r.1@ == spec_rejected(courses@, column as int),
{
    let mut placed: Vec<(Course, GridSpan)> = Vec::new();
    let mut rejected: Vec<(Course, PlacementError)> = Vec::new();
    let mut i: usize = 0;
    proof {
        assert(courses@.take(0) =~= Seq::<Course>::empty());
    }
    while i < courses.len()
        invariant
            i <= courses@.len(),
            column < 5,
            placed@ == spec_placed(courses@.take(i as int), column as int),
            rejected@ == spec_rejected(courses@.take(i as int), column as int),
        decreases courses@.len() - i,
    {
        let course = &courses[i];
        proof {
            let next = courses@.take(i + 1);
            assert(next.drop_last() =~= courses@.take(i as int));
            assert(next.last() == courses@[i as int]);
        }
        match place(course, column) {
            Ok(span) => {
                placed.push((course.clone(), span));
            },
            Err(e) => {
                rejected.push((course.clone(), e));
            },
        }
        i = i + 1;
    }
    proof {
        assert(courses@.take(i as int) =~= courses@);
    }
    (placed, rejected)
}

/// The plan's five days are Monday through Friday of the week of
/// `week_monday`: day `i` carries column `i`, the display text of day
/// number `monday + i`, and exactly the placed and rejected courses that
/// the lesson data holds under that text.
pub open spec fn day_plan_wf(day: DayPlan, data: LessonData, monday: int, i: int) -> bool {
    &&& day.column_index == i
    &&& day.date@ == date_label_of(monday + i)
    &&& day.placed@ == spec_placed(data.spec_courses_on(date_label_of(monday + i)), i)
    &&& day.rejected@ == spec_rejected(data.spec_courses_on(date_label_of(monday + i)), i)
}

/// Everything the view needs for one week, `offset` weeks away from the
/// week of `today`: the anchor Monday (today's Monday moved by `7 * offset`
/// days), well-formed axis labels, and five weekday columns whose contents
/// are exactly what the lesson data holds for their dates.
pub open spec fn week_plan_wf(plan: WeekPlan, data: LessonData, today: Date, offset: int) -> bool {
    &&& plan.week_monday.wf()
    &&& plan.week_monday.day_number == spec_base_monday(today) + 7 * offset
    &&& axis_labels_wf(plan.axis_labels@)
    &&& plan.days@.len() == 5
    &&& forall|i: int|
        0 <= i < 5 ==> day_plan_wf(
            #[trigger] plan.days@[i],
            data,
            plan.week_monday.day_number as int,
            i,
        )
}

/// One render pass: resolves the Monday of today's week, moves it by the
/// navigation offset, and computes the five dated columns with every
/// course of those dates placed or rejected. Fails with `AnchorError`
/// exactly when the date arithmetic would leave the supported range —
/// such a failure is fatal for the render, while per-course placement
/// failures are isolated inside their day.
pub fn layout_week(data: &LessonData, today: Date, offset: i64) -> (r: Result<
    WeekPlan,
    AnchorError,
>)
    requires
        today.wf(),
    ensures
        r is Ok <==> MIN_DAY_NUMBER <= spec_base_monday(today) && MIN_DAY_NUMBER
            <= spec_base_monday(today) + 7 * (offset as int) <= MAX_DAY_NUMBER,
        r is Ok ==> week_plan_wf(r->Ok_0, *data, today, offset as int),
{
    let base_monday = match resolve_base_monday(today) {
        Ok(m) => m,
        Err(e) => {
            return Err(e);
        },
    };
    let week_monday = match resolve_week(base_monday, offset) {
        Ok(m) => m,
        Err(e) => {
            proof {
                assert(week_target(base_monday, offset as int) == spec_base_monday(today) + 7 * (
                offset as int));
            }
            return Err(e);
        },
    };
    let dates = visible_dates(week_monday);
    let labels = axis_labels();
    let mut days: Vec<DayPlan> = Vec::new();
    let mut i: usize = 0;
    while i < 5
        invariant
            i <= 5,
            dates@.len() == 5,
            week_monday.wf(),
            forall|j: int|
                0 <= j < 5 ==> #[trigger] dates@[j]@ == date_label_of(
                    week_monday.day_number + j,
                ),
            days@.len() == i,
            forall|j: int|
                0 <= j < i ==> day_plan_wf(
                    #[trigger] days@[j],
                    *data,
                    week_monday.day_number as int,
                    j,
                ),
        decreases 5 - i,
    {
        let date = dates[i].clone();
        let courses = data.courses_on(date.as_str());
        let (placed, rejected) = place_day(&courses, i);
        let day = DayPlan { date, column_index: i, placed, rejected };
        days.push(day);
        i = i + 1;
    }
    Ok(WeekPlan { week_monday, axis_labels: labels, days })
}

} // verus!

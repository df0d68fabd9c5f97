//! The week dimension of the timetable: calendar dates as day numbers, the
//! Monday anchoring a displayed week, navigation by whole weeks, and the
//! five visible dates with their display text.

use vstd::prelude::*;

verus! {

/// Smallest supported day number: January 1 of year 1.
pub const MIN_DAY_NUMBER: i64 = 1;

/// Largest supported day number, far beyond any realistic navigation
/// (about year 8200) yet comfortably inside the range chrono can convert.
pub const MAX_DAY_NUMBER: i64 = 3_000_000;

/// Date arithmetic left the supported range of day numbers. Practically
/// unreachable, but a checked path, never an assumed success.
#[derive(Clone, Copy, Debug, PartialEq, Eq, Structural)]
pub struct AnchorError;

/// A calendar date of the proleptic Gregorian calendar, held as its day
/// number, with January 1 of year 1 as day 1 (the numbering chrono's
/// `NaiveDate::from_num_days_from_ce_opt` uses).
#[derive(Clone, Copy, Debug, PartialEq, Eq, Structural)]
pub struct Date {
    pub day_number: i64,
}

impl Date {
    /// The day number lies on the supported range.
    pub open spec fn wf(self) -> bool {
        MIN_DAY_NUMBER <= self.day_number <= MAX_DAY_NUMBER
    }

    /// Makes a date from its day number; `None` exactly when the number is
    /// outside the supported range.
    pub fn from_day_number(day_number: i64) -> (r: Option<Date>)
        ensures
            r is Some <==> MIN_DAY_NUMBER <= day_number <= MAX_DAY_NUMBER,
            r is Some ==> r->0 == (Date { day_number }) && r->0.wf(),
    {
        if MIN_DAY_NUMBER <= day_number && day_number <= MAX_DAY_NUMBER {
            Some(Date { day_number })
        } else {
            None
        }
    }
}

/// The ISO weekday number (Monday = 1 .. Sunday = 7) of a day number: a
/// pure function of the day number, named here and pinned down no further.
pub uninterp spec fn weekday_number_of(day_number: int) -> int;

/// Relies on chrono's `NaiveDate::from_num_days_from_ce_opt` (defined on the
/// whole range admitted here), `NaiveDate::weekday` (a function of the date
/// alone) and `Weekday::number_from_monday` (documented to lie in 1..=7).
#[verifier::external_body]
fn weekday_from_monday(day_number: i64) -> (r: u32)
    requires
        MIN_DAY_NUMBER <= day_number <= MAX_DAY_NUMBER + 6,
    ensures
        r as int == weekday_number_of(day_number as int),
        1 <= r <= 7,
{
    match chrono::NaiveDate::from_num_days_from_ce_opt(day_number as i32) {
        Some(d) => chrono::Datelike::weekday(&d).number_from_monday(),
        None => 1,
    }
}

/// The `"dd/mm/yyyy"` display text of a day number: a pure function of the
/// day number, named here and pinned down no further.
pub uninterp spec fn date_label_of(day_number: int) -> Seq<char>;

/// Relies on chrono's `NaiveDate::from_num_days_from_ce_opt` (defined on the
/// whole range admitted here) and `NaiveDate::format` with `"%d/%m/%Y"`:
/// zero-padded day and month and the full year, a function of the date
/// alone, with no locale or timezone in play.
#[verifier::external_body]
fn format_date_label(day_number: i64) -> (r: String)
    requires
        MIN_DAY_NUMBER <= day_number <= MAX_DAY_NUMBER + 6,
    ensures
        r@ == date_label_of(day_number as int),
{
    match chrono::NaiveDate::from_num_days_from_ce_opt(day_number as i32) {
        Some(d) => d.format("%d/%m/%Y").to_string(),
        None => String::new(),
    }
}

/// The Monday of the week `today` belongs to: `weekday - 1` days before
/// `today` under ISO weekday numbering.
pub open spec fn spec_base_monday(today: Date) -> int {
    today.day_number - (weekday_number_of(today.day_number as int) - 1)
}

/// Resolves the Monday of the week of `today`: determines today's ISO
/// weekday number and subtracts `weekday - 1` days. Fails only when the
/// result would leave the supported date range — practically unreachable,
/// but a checked path, not an assumed success.
pub fn resolve_base_monday(today: Date) -> (r: Result<Date, AnchorError>)
    requires
        today.wf(),
    ensures
        1 <= weekday_number_of(today.day_number as int) <= 7,
        r is Ok <==> MIN_DAY_NUMBER <= spec_base_monday(today),
        r is Ok ==> r->Ok_0.day_number == spec_base_monday(today) && r->Ok_0.wf(),
{
    let weekday = weekday_from_monday(today.day_number);
    let monday = today.day_number - ((weekday - 1) as i64);
    if monday < MIN_DAY_NUMBER {
        Err(AnchorError)
    } else {
        Ok(Date { day_number: monday })
    }
}

/// The day number `offset` weeks away from a base Monday.
pub open spec fn week_target(base_monday: Date, offset: int) -> int {
    base_monday.day_number + 7 * offset
}

/// What resolving a week offset returns: the Monday exactly `7 * offset`
/// days away, or `AnchorError` when that leaves the supported range.
pub open spec fn spec_resolve_week(base_monday: Date, offset: int) -> Result<Date, AnchorError> {
    if MIN_DAY_NUMBER <= week_target(base_monday, offset) <= MAX_DAY_NUMBER {
        Ok(Date { day_number: week_target(base_monday, offset) as i64 })
    } else {
        Err(AnchorError)
    }
}

/// Resolves the Monday `offset` weeks away from `base_monday`: adds
/// `7 * offset` days with checked arithmetic, failing loudly rather than
/// wrapping on extreme offsets.
pub fn resolve_week(base_monday: Date, offset: i64) -> (r: Result<Date, AnchorError>)
    requires
        base_monday.wf(),
    ensures
        r == spec_resolve_week(base_monday, offset as int),
        r is Ok ==> r->Ok_0.wf(),
{
    let days = match offset.checked_mul(7) {
        Some(d) => d,
        None => {
            return Err(AnchorError);
        },
    };
    let target = match base_monday.day_number.checked_add(days) {
        Some(t) => t,
        None => {
            return Err(AnchorError);
        },
    };
    if target < MIN_DAY_NUMBER || target > MAX_DAY_NUMBER {
        Err(AnchorError)
    } else {
        Ok(Date { day_number: target })
    }
}

/// Offset zero resolves to the base Monday itself, unchanged.
pub proof fn lemma_resolve_week_zero(base_monday: Date)
    requires
        base_monday.wf(),
    ensures
        spec_resolve_week(base_monday, 0) == Ok::<Date, AnchorError>(base_monday),
{
}

/// A resolved week lies exactly `7 * offset` days from its base: offset one
/// is exactly seven days later, offset minus one exactly seven days earlier.
pub proof fn lemma_resolve_week_distance(base_monday: Date, offset: int)
    ensures
        spec_resolve_week(base_monday, offset) matches Ok(monday) ==> monday.day_number
            == base_monday.day_number + 7 * offset,
{
}

/// Round trip: resolving `offset` weeks away and then `-offset` weeks back
/// returns exactly the original Monday, whenever the first step succeeds.
pub proof fn lemma_resolve_week_round_trip(base_monday: Date, offset: int)
    requires
        base_monday.wf(),
        spec_resolve_week(base_monday, offset) is Ok,
    ensures
        spec_resolve_week(spec_resolve_week(base_monday, offset)->Ok_0, -offset) == Ok::<
            Date,
            AnchorError,
        >(base_monday),
{
}

/// The five dates of the displayed week — Monday through Friday, that is
/// day numbers `monday .. monday + 4` — as display text, formatted exactly
/// as the lesson data keys its dates so that lookups succeed.
pub fn visible_dates(week_monday: Date) -> (r: Vec<String>)
    requires
        week_monday.wf(),
    ensures
        r@.len() == 5,
        forall|i: int|
            0 <= i < 5 ==> #[trigger] r@[i]@ == date_label_of(week_monday.day_number + i),
{
    let mut dates: Vec<String> = Vec::new();
    let mut i: u32 = 0;
    while i < 5
        invariant
            i <= 5,
            week_monday.wf(),
            dates@.len() == i,
            forall|j: int|
                0 <= j < i ==> #[trigger] dates@[j]@ == date_label_of(week_monday.day_number + j),
        decreases 5 - i,
    {
        let label = format_date_label(week_monday.day_number + i as i64);
        dates.push(label);
        i = i + 1;
    }
    dates
}

} // verus!

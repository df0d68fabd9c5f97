//! Week navigation: the single mutable state element of the core, an
//! unbounded signed counter of weeks away from the current week with two
//! transition actions and no terminal state.

use vstd::prelude::*;
use crate::week::{Date, spec_resolve_week};

verus! {

/// The signed week offset: zero at session start for the current week,
/// positive for future weeks, negative for past weeks. Arbitrarily distant
/// weeks are valid; nothing bounds navigation.
#[derive(Clone, Copy, Debug, PartialEq, Eq, Structural)]
pub struct WeekNavigationState {
    pub offset: i64,
}

impl WeekNavigationState {
    /// Session start: the current week.
    pub fn new() -> (r: Self)
        ensures
            r.offset == 0,
    {
        WeekNavigationState { offset: 0 }
    }

    /// Steps one week into the past: decrements the offset by exactly one.
    pub fn go_to_previous_week(&mut self)
        requires
            old(self).offset > i64::MIN,
        ensures
            final(self).offset == old(self).offset - 1,
    {
        self.offset = self.offset - 1;
    }

    /// Steps one week into the future: increments the offset by exactly one.
    pub fn go_to_next_week(&mut self)
        requires
            old(self).offset < i64::MAX,
        ensures
            final(self).offset == old(self).offset + 1,
    {
        self.offset = self.offset + 1;
    }
}

/// Navigating one week back and then one week forward (from any offset, in
/// particular from zero) resolves the same Monday again, and with it the
/// same visible dates and the same grid.
pub proof fn lemma_previous_then_next_restores_week(base_monday: Date, offset: int)
    ensures
        spec_resolve_week(base_monday, (offset - 1) + 1) == spec_resolve_week(base_monday, offset),
{
}

} // verus!

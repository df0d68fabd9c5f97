//! The dated lesson entries: one course, and the date-keyed collection of
//! courses with defined absence semantics (an unknown date has no lessons,
//! which is a normal state, not an error).

use vstd::prelude::*;

verus! {

/// One course entry: room, start and end time as `"H:MM"` text, a display
/// name and an optional note.
#[derive(Debug)]
pub struct Course {
    pub aula: String,
    pub end: String,
    pub name: String,
    pub note: Option<String>,
    pub start: String,
}

impl Clone for Course {
    fn clone(&self) -> (r: Self)
        ensures
            r == *self,
    {
        let r = Course {
            aula: self.aula.clone(),
            end: self.end.clone(),
            name: self.name.clone(),
            note: self.note.clone(),
            start: self.start.clone(),
        };
        proof {
            match (&self.note, &r.note) {
                (Some(a), Some(b)) => {
                    assert(vstd::pervasive::cloned::<String>(*a, *b));
                },
                _ => {},
            }
        }
        r
    }
}

impl Default for Course {
    /// The empty course: every text empty and no note.
    fn default() -> (r: Self)
        ensures
            r.aula@ == Seq::<char>::empty(),
            r.end@ == Seq::<char>::empty(),
            r.name@ == Seq::<char>::empty(),
            r.note is None,
            r.start@ == Seq::<char>::empty(),
    {
        Course {
            aula: String::new(),
            end: String::new(),
            name: String::new(),
            note: None,
            start: String::new(),
        }
    }
}

/// The raw lesson collection: courses keyed by date text (`"dd/mm/yyyy"`),
/// together with the moment the data was produced. The entries stand in
/// source order; a well-formed value names each date at most once.
#[derive(Debug)]
pub struct LessonData {
    pub lessons_list: Vec<(String, Vec<Course>)>,
    pub last_executed: String,
}

/// The ordered courses of the first entry whose date matches, or the empty
/// sequence when no entry matches.
pub open spec fn lookup_courses(entries: Seq<(String, Vec<Course>)>, date: Seq<char>) -> Seq<
    Course,
>
    decreases entries.len(),
{
    if entries.len() == 0 {
        Seq::empty()
    } else if entries[0].0@ == date {
        entries[0].1@
    } else {
        lookup_courses(entries.drop_first(), date)
    }
}

impl LessonData {
    /// Each date is named by at most one entry, so the entry order carries
    /// no further meaning for lookups.
    pub open spec fn wf(self) -> bool {
        forall|i: int, j: int|
            0 <= i < j < self.lessons_list@.len() ==> (#[trigger] self.lessons_list@[i]).0@ != (
            #[trigger] self.lessons_list@[j]).0@
    }

    /// The courses this collection holds for a date.
    pub open spec fn spec_courses_on(self, date: Seq<char>) -> Seq<Course> {
        lookup_courses(self.lessons_list@, date)
    }

    /// Whether some entry names this date.
    pub open spec fn spec_has_date(self, date: Seq<char>) -> bool {
        exists|i: int| 0 <= i < self.lessons_list@.len() && (#[trigger] self.lessons_list@[i]).0@
            == date
    }

    /// Date-keyed retrieval: the courses of the given date, in the order the
    /// data source supplied them, and the empty vector when the date is
    /// absent — never an error.
    pub fn courses_on(&self, date: &str) -> (r: Vec<Course>)
        ensures
            r@ == self.spec_courses_on(date@),
    {
        let date_owned = String::from_str(date);
        let mut i: usize = 0;
        proof {
            assert(self.lessons_list@.skip(0) =~= self.lessons_list@);
        }
        while i < self.lessons_list.len()
            invariant
                i <= self.lessons_list@.len(),
                date_owned@ == date@,
                lookup_courses(self.lessons_list@.skip(i as int), date@) == lookup_courses(
                    self.lessons_list@,
                    date@,
                ),
            decreases self.lessons_list@.len() - i,
        {
            let entry = &self.lessons_list[i];
            proof {
                assert(self.lessons_list@.skip(i as int)[0] == self.lessons_list@[i as int]);
            }
            if entry.0.eq(&date_owned) {
                let r = entry.1.clone();
                proof {
                    let rest = self.lessons_list@.skip(i as int);
                    assert(rest[0].0@ == date@);
                    assert(lookup_courses(rest, date@) == rest[0].1@);
                    assert forall|k: int| 0 <= k < r@.len() implies r@[k] == entry.1@[k] by {
                        assert(vstd::pervasive::cloned::<Course>(entry.1@[k], r@[k]));
                    }
                    assert(r@ =~= entry.1@);
                }
                return r;
            }
            proof {
                let rest = self.lessons_list@.skip(i as int);
                assert(rest[0].0@ != date@);
                assert(lookup_courses(rest, date@) == lookup_courses(rest.drop_first(), date@));
                assert(rest.drop_first() =~= self.lessons_list@.skip(i + 1));
            }
            i = i + 1;
        }
        proof {
            assert(self.lessons_list@.skip(i as int).len() == 0);
        }
        Vec::new()
    }
}

impl Default for LessonData {
    /// The empty collection: no dates at all, and so no courses on any date.
    fn default() -> (r: Self)
        ensures
            r.lessons_list@ == Seq::<(String, Vec<Course>)>::empty(),
            r.last_executed@ == Seq::<char>::empty(),
            r.wf(),
    {
        LessonData { lessons_list: Vec::new(), last_executed: String::new() }
    }
}

/// A date no entry names has no courses: lookups on it give the empty
/// sequence, never an error.
pub proof fn lemma_courses_on_absent_date(data: LessonData, date: Seq<char>)
    requires
        !data.spec_has_date(date),
    ensures
        data.spec_courses_on(date) == Seq::<Course>::empty(),
{
    lemma_lookup_absent(data.lessons_list@, date);
}

proof fn lemma_lookup_absent(entries: Seq<(String, Vec<Course>)>, date: Seq<char>)
    requires
        forall|i: int| 0 <= i < entries.len() ==> (#[trigger] entries[i]).0@ != date,
    ensures
        lookup_courses(entries, date) == Seq::<Course>::empty(),
    decreases entries.len(),
{
    if entries.len() > 0 {
        assert(entries[0].0@ != date);
        lemma_lookup_absent(entries.drop_first(), date);
    }
}

/// The upstream data boundary failed: the provider reported absence or an
/// access failure, or its payload did not have the expected shape.
#[derive(Clone, Copy, Debug, PartialEq, Eq, Structural)]
pub enum DataError {
    Unavailable,
    Format,
}

} // verus!

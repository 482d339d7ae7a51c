//! Weekdays, and the three weekday pairs on which materials recur.

use crate::text::same_text;
use vstd::prelude::*;

verus! {

/// A day of the week.
#[derive(Clone, Copy, Debug, PartialEq, Eq, Hash, Structural)]
pub enum DayOfWeek {
    Monday,
    Tuesday,
    Wednesday,
    Thursday,
    Friday,
    Saturday,
    Sunday,
}

impl DayOfWeek {
    /// Position in the week, Monday being 0 and Sunday 6.
    pub open spec fn spec_index(self) -> int {
        match self {
            DayOfWeek::Monday => 0,
            DayOfWeek::Tuesday => 1,
            DayOfWeek::Wednesday => 2,
            DayOfWeek::Thursday => 3,
            DayOfWeek::Friday => 4,
            DayOfWeek::Saturday => 5,
            DayOfWeek::Sunday => 6,
        }
    }

    /// The day at position `i` of the week; positions past 6 give Sunday.
    pub open spec fn spec_from_index(i: int) -> DayOfWeek {
        if i == 0 {
            DayOfWeek::Monday
        } else if i == 1 {
            DayOfWeek::Tuesday
        } else if i == 2 {
            DayOfWeek::Wednesday
        } else if i == 3 {
            DayOfWeek::Thursday
        } else if i == 4 {
            DayOfWeek::Friday
        } else if i == 5 {
            DayOfWeek::Saturday
        } else {
            DayOfWeek::Sunday
        }
    }

    /// The English name of the day, as the catalogs write it.
    pub open spec fn spec_name(self) -> Seq<char> {
        match self {
            DayOfWeek::Monday => "Monday"@,
            DayOfWeek::Tuesday => "Tuesday"@,
            DayOfWeek::Wednesday => "Wednesday"@,
            DayOfWeek::Thursday => "Thursday"@,
            DayOfWeek::Friday => "Friday"@,
            DayOfWeek::Saturday => "Saturday"@,
            DayOfWeek::Sunday => "Sunday"@,
        }
    }

    /// The day that a catalog label denotes: the first day, in week order,
    /// whose name the label equals.
    pub open spec fn spec_from_name(label: Seq<char>) -> Option<DayOfWeek> {
        if exists|d: DayOfWeek| d.spec_name() == label {
            Some(choose|d: DayOfWeek| d.spec_name() == label)
        } else {
            None
        }
    }

    /// The day three days later or earlier that shares this day's materials.
    /// Sunday shares with every day and is its own partner.
    pub open spec fn spec_partner(self) -> DayOfWeek {
        match self {
            DayOfWeek::Monday => DayOfWeek::Thursday,
            DayOfWeek::Tuesday => DayOfWeek::Friday,
            DayOfWeek::Wednesday => DayOfWeek::Saturday,
            DayOfWeek::Thursday => DayOfWeek::Monday,
            DayOfWeek::Friday => DayOfWeek::Tuesday,
            DayOfWeek::Saturday => DayOfWeek::Wednesday,
            DayOfWeek::Sunday => DayOfWeek::Sunday,
        }
    }

    /// Position in the week, Monday being 0 and Sunday 6.
    pub fn index(self) -> (i: usize)
        ensures
            i == self.spec_index(),
            i < 7,
    {
        match self {
            DayOfWeek::Monday => 0,
            DayOfWeek::Tuesday => 1,
            DayOfWeek::Wednesday => 2,
            DayOfWeek::Thursday => 3,
            DayOfWeek::Friday => 4,
            DayOfWeek::Saturday => 5,
            DayOfWeek::Sunday => 6,
        }
    }

    /// The other day of this day's pair; Sunday for Sunday.
    pub fn partner(self) -> (other: DayOfWeek)
        ensures
            other == self.spec_partner(),
    {
        match self {
            DayOfWeek::Monday => DayOfWeek::Thursday,
            DayOfWeek::Tuesday => DayOfWeek::Friday,
            DayOfWeek::Wednesday => DayOfWeek::Saturday,
            DayOfWeek::Thursday => DayOfWeek::Monday,
            DayOfWeek::Friday => DayOfWeek::Tuesday,
            DayOfWeek::Saturday => DayOfWeek::Wednesday,
            DayOfWeek::Sunday => DayOfWeek::Sunday,
        }
    }

    /// The day at position `i` of the week, for `i` below 7.
    pub fn from_index(i: usize) -> (day: Option<DayOfWeek>)
        ensures
            i < 7 ==> day == Some(DayOfWeek::spec_from_index(i as int)),
            i >= 7 ==> day.is_none(),
            day matches Some(d) ==> d.spec_index() == i,
    {
        if i == 0 {
            Some(DayOfWeek::Monday)
        } else if i == 1 {
            Some(DayOfWeek::Tuesday)
        } else if i == 2 {
            Some(DayOfWeek::Wednesday)
        } else if i == 3 {
            Some(DayOfWeek::Thursday)
        } else if i == 4 {
            Some(DayOfWeek::Friday)
        } else if i == 5 {
            Some(DayOfWeek::Saturday)
        } else if i == 6 {
            Some(DayOfWeek::Sunday)
        } else {
            None
        }
    }

    /// The seven days, Monday first.
    pub fn all() -> (days: Vec<DayOfWeek>)
        ensures
            days.len() == 7,
            forall|i: int| 0 <= i < 7 ==> days[i] == DayOfWeek::spec_from_index(i),
    {
        vec![
            DayOfWeek::Monday,
            DayOfWeek::Tuesday,
            DayOfWeek::Wednesday,
            DayOfWeek::Thursday,
            DayOfWeek::Friday,
            DayOfWeek::Saturday,
            DayOfWeek::Sunday,
        ]
    }

    /// The English name of the day.
    pub fn as_str(self) -> (name: &'static str)
        ensures
            name@ == self.spec_name(),
    {
        match self {
            DayOfWeek::Monday => "Monday",
            DayOfWeek::Tuesday => "Tuesday",
            DayOfWeek::Wednesday => "Wednesday",
            DayOfWeek::Thursday => "Thursday",
            DayOfWeek::Friday => "Friday",
            DayOfWeek::Saturday => "Saturday",
            DayOfWeek::Sunday => "Sunday",
        }
    }

    /// Reads a day from its English name. The match is exact: case and
    /// surrounding blanks count.
    pub fn from_name(label: &str) -> (day: Option<DayOfWeek>)
        ensures
            day == DayOfWeek::spec_from_name(label@),
            day matches Some(d) ==> d.spec_name() == label@,
            day.is_none() ==> forall|d: DayOfWeek| d.spec_name() != label@,
    {
        proof {
            lemma_names_differ();
        }
        let days = DayOfWeek::all();
        let mut i: usize = 0;
        while i < 7
            invariant
                i <= 7,
                days.len() == 7,
                forall|k: int| 0 <= k < 7 ==> days[k] == DayOfWeek::spec_from_index(k),
                forall|k: int| 0 <= k < i ==> DayOfWeek::spec_from_index(k).spec_name() != label@,
            decreases 7 - i,
        {
            let d = days[i];
            if same_text(d.as_str(), label) {
                assert forall|e: DayOfWeek| e.spec_name() == label@ implies e == d by {
                    lemma_names_differ();
                }
                return Some(d);
            }
            i += 1;
        }
        assert forall|d: DayOfWeek| d.spec_name() != label@ by {
            assert(d == DayOfWeek::spec_from_index(d.spec_index()));
        }
        None
    }
}

/// No two days share a name.
pub proof fn lemma_names_differ()
    ensures
        forall|a: DayOfWeek, b: DayOfWeek| a.spec_name() == b.spec_name() ==> a == b,
{
    reveal_strlit("Monday");
    reveal_strlit("Tuesday");
    reveal_strlit("Wednesday");
    reveal_strlit("Thursday");
    reveal_strlit("Friday");
    reveal_strlit("Saturday");
    reveal_strlit("Sunday");
    assert forall|a: DayOfWeek, b: DayOfWeek| a.spec_name() == b.spec_name() implies a == b by {
        let x = a.spec_name();
        let y = b.spec_name();
        assert(x.len() == y.len());
        assert(x[0] == y[0]);
        assert(x[1] == y[1]);
    }
}

/// Reading a day's own name gives the day back.
pub proof fn lemma_name_round_trip(day: DayOfWeek)
    ensures
        DayOfWeek::spec_from_name(day.spec_name()) == Some(day),
{
    lemma_names_differ();
}

} // verus!

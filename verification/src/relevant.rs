//! The "what can be collected today" view: the three weekday pairs, each
//! marked when today is one of its days.

use crate::day::DayOfWeek;
use vstd::prelude::*;

verus! {

/// One weekday pair of the view.
#[derive(Clone, Debug)]
pub struct RelevantDay {
    /// The earlier day of the pair; the schedule is looked up under it.
    pub day_of_week: DayOfWeek,
    /// The label shown for the pair.
    pub display_name: String,
    /// Whether the pair's materials can be collected today.
    pub is_today: bool,
}

/// What a [`RelevantDay`] holds, with the label as characters.
pub struct RelevantDayView {
    pub day_of_week: DayOfWeek,
    pub display_name: Seq<char>,
    pub is_today: bool,
}

impl View for RelevantDay {
    type V = RelevantDayView;

    open spec fn view(&self) -> RelevantDayView {
        RelevantDayView {
            day_of_week: self.day_of_week,
            display_name: self.display_name@,
            is_today: self.is_today,
        }
    }
}

/// The label of the `k`-th pair: Monday/Thursday, Tuesday/Friday,
/// Wednesday/Saturday.
pub open spec fn pair_label(k: int) -> Seq<char> {
    if k == 0 {
        "月/木"@
    } else if k == 1 {
        "火/金"@
    } else {
        "水/土"@
    }
}

/// The materials of the pair led by `leader` can be collected on `today`:
/// on the pair's own two days, and on Sunday, when everything can.
pub open spec fn collectable_on(leader: DayOfWeek, today: DayOfWeek) -> bool {
    today == leader || today == leader.spec_partner() || today == DayOfWeek::Sunday
}

/// The `k`-th entry of the view for `today`.
pub open spec fn relevant_day(k: int, today: DayOfWeek) -> RelevantDayView {
    RelevantDayView {
        day_of_week: DayOfWeek::spec_from_index(k),
        display_name: pair_label(k),
        is_today: collectable_on(DayOfWeek::spec_from_index(k), today),
    }
}

fn pair(leader: DayOfWeek, label: &str, today: DayOfWeek) -> (entry: RelevantDay)
    ensures
        entry.day_of_week == leader,
        entry.display_name@ == label@,
        entry.is_today == collectable_on(leader, today),
{
    let is_today = today == leader || today == leader.partner() || today == DayOfWeek::Sunday;
    RelevantDay { day_of_week: leader, display_name: label.to_owned(), is_today }
}

/// The three weekday pairs in week order, each marked when `today` is one
/// of its two days or a Sunday.
pub fn relevant_days(today: DayOfWeek) -> (days: Vec<RelevantDay>)
    ensures
        days.len() == 3,
        days[0]@ == relevant_day(0, today),
        days[1]@ == relevant_day(1, today),
        days[2]@ == relevant_day(2, today),
{
    let mut days: Vec<RelevantDay> = Vec::new();
    days.push(pair(DayOfWeek::Monday, "月/木", today));
    days.push(pair(DayOfWeek::Tuesday, "火/金", today));
    days.push(pair(DayOfWeek::Wednesday, "水/土", today));
    days
}

/// On a Sunday all three pairs are marked; on any other day exactly one is,
/// the pair that the day belongs to.
pub proof fn lemma_pairs_marked(today: DayOfWeek)
    ensures
        today == DayOfWeek::Sunday ==> forall|k: int|
            0 <= k < 3 ==> (#[trigger] relevant_day(k, today)).is_today,
        today != DayOfWeek::Sunday ==> forall|k: int|
            0 <= k < 3 ==> ((#[trigger] relevant_day(k, today)).is_today <==> k == today.spec_index()
                % 3),
{
}

} // verus!

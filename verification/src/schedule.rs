//! The weekly schedule: for each day of the week, the material types that
//! can be collected on it, newest region first. It is either derived from
//! the resource catalog or taken from a fixed table.

use crate::catalog::ResourceEntry;
use crate::day::DayOfWeek;
use crate::material::{
    all_members, classify, lemma_ordinal_round_trip, TalentLevelUpMaterialType,
    MATERIAL_TYPE_COUNT,
};
use crate::resources::{all_days_known, ResourceIndex};
use crate::text::{contains_text, is_substring};
use vstd::prelude::*;
use vstd::relations::{sorted_by, total_ordering};
use vstd::seq_lib::*;

verus! {

/// The words that open the name of a "teachings" item, the lowest tier of
/// every material type. The schedule is derived from these items alone.
pub const TEACHINGS_PREFIX: &'static str = "Teachings of ";

/// Why no schedule could be derived from a catalog.
#[derive(Clone, Copy, Debug, PartialEq, Eq, Structural)]
pub enum ScheduleDerivationError {
    /// A teachings item lists no days at all.
    MissingWeekdays,
    /// A teachings item lists a label that names no day.
    UnknownWeekday,
    /// A teachings item lists days, but its name holds the token of no
    /// material type.
    UnknownMaterial,
    /// Some day of the week is listed by no teachings item.
    UncoveredWeekday,
}

/// A day together with a material type that can be collected on it.
pub type Availability = (DayOfWeek, TalentLevelUpMaterialType);

/// The name is that of a teachings item.
pub open spec fn is_teachings(name: Seq<char>) -> bool {
    is_substring(name, TEACHINGS_PREFIX@)
}

/// What the day labels of one item say, label by label and front to back:
/// each label must name a day, and the item must have a type `t`.
pub open spec fn label_pairs(labels: Seq<String>, t: Option<TalentLevelUpMaterialType>) -> Result<
    Seq<Availability>,
    ScheduleDerivationError,
>
    decreases labels.len(),
{
    if labels.len() == 0 {
        Ok(Seq::empty())
    } else {
        match label_pairs(labels.drop_last(), t) {
            Err(e) => Err(e),
            Ok(before) => match DayOfWeek::spec_from_name(labels.last()@) {
                None => Err(ScheduleDerivationError::UnknownWeekday),
                Some(day) => match t {
                    None => Err(ScheduleDerivationError::UnknownMaterial),
                    Some(t) => Ok(before.push((day, t))),
                },
            },
        }
    }
}

/// What one record of the index says: nothing unless it is a teachings
/// item; otherwise one pair for each day it lists.
pub open spec fn entry_pairs(entry: ResourceEntry) -> Result<
    Seq<Availability>,
    ScheduleDerivationError,
> {
    if !is_teachings(entry.name@) {
        Ok(Seq::empty())
    } else {
        match entry.days {
            None => Err(ScheduleDerivationError::MissingWeekdays),
            Some(labels) => label_pairs(labels@, classify(entry.name@)),
        }
    }
}

/// What the records say together, record by record and front to back. The
/// first thing that is wrong decides the error.
pub open spec fn catalog_pairs(entries: Seq<ResourceEntry>) -> Result<
    Seq<Availability>,
    ScheduleDerivationError,
>
    decreases entries.len(),
{
    if entries.len() == 0 {
        Ok(Seq::empty())
    } else {
        match catalog_pairs(entries.drop_last()) {
            Err(e) => Err(e),
            Ok(before) => match entry_pairs(entries.last()) {
                Err(e) => Err(e),
                Ok(more) => Ok(before + more),
            },
        }
    }
}

/// The pairs that are for `day`.
pub open spec fn on_day(day: DayOfWeek) -> spec_fn(Availability) -> bool {
    |pair: Availability| pair.0 == day
}

/// The type of a pair.
pub open spec fn type_of_pair() -> spec_fn(Availability) -> TalentLevelUpMaterialType {
    |pair: Availability| pair.1
}

/// The types that `pairs` give for `day`, in the order of the pairs.
pub open spec fn types_on(pairs: Seq<Availability>, day: DayOfWeek) -> Seq<
    TalentLevelUpMaterialType,
> {
    pairs.filter(on_day(day)).map_values(type_of_pair())
}

/// How the types of a day follow from those given by the pairs without the
/// last.
proof fn lemma_types_on_step(pairs: Seq<Availability>, day: DayOfWeek)
    requires
        pairs.len() > 0,
    ensures
        types_on(pairs, day) == if pairs.last().0 == day {
            types_on(pairs.drop_last(), day).push(pairs.last().1)
        } else {
            types_on(pairs.drop_last(), day)
        },
{
    let head = pairs.drop_last();
    head.lemma_filter_push(pairs.last(), on_day(day));
    assert(head.push(pairs.last()) == pairs);
    if pairs.last().0 == day {
        assert(head.filter(on_day(day)).push(pairs.last()).map_values(type_of_pair())
            == head.filter(on_day(day)).map_values(type_of_pair()).push(pairs.last().1));
    }
}

/// The list runs from the newest type to the oldest: against the
/// declaration order.
pub open spec fn newest_first(list: Seq<TalentLevelUpMaterialType>) -> bool {
    forall|i: int, j: int|
        0 <= i < j < list.len() ==> list[i].spec_ordinal() >= list[j].spec_ordinal()
}

/// `list` is the schedule's list for `day`, given what the catalog says:
/// the types that the pairs give for the day, each as often as the pairs
/// give it, newest first. There is one such list and no other.
pub open spec fn is_list_for(
    list: Seq<TalentLevelUpMaterialType>,
    pairs: Seq<Availability>,
    day: DayOfWeek,
) -> bool {
    newest_first(list) && list.to_multiset() == types_on(pairs, day).to_multiset()
}

/// What a derivation comes to: the pairs that the catalog gives, or the
/// error. A catalog that leaves a day of the week without any type gives no
/// schedule.
pub open spec fn derivation(entries: Seq<ResourceEntry>) -> Result<
    Seq<Availability>,
    ScheduleDerivationError,
> {
    match catalog_pairs(entries) {
        Err(e) => Err(e),
        Ok(pairs) => if forall|day: DayOfWeek| types_on(pairs, day).len() > 0 {
            Ok(pairs)
        } else {
            Err(ScheduleDerivationError::UncoveredWeekday)
        },
    }
}

/// The lists that the fixed table writes out: that of Monday for 0, of
/// Tuesday for 1, of Wednesday for anything else.
pub open spec fn written_list(k: int) -> Seq<TalentLevelUpMaterialType> {
    if k == 0 {
        seq![
            TalentLevelUpMaterialType::Contention,
            TalentLevelUpMaterialType::Equity,
            TalentLevelUpMaterialType::Admonition,
            TalentLevelUpMaterialType::Transience,
            TalentLevelUpMaterialType::Prosperity,
            TalentLevelUpMaterialType::Freedom,
        ]
    } else if k == 1 {
        seq![
            TalentLevelUpMaterialType::Kindling,
            TalentLevelUpMaterialType::Justice,
            TalentLevelUpMaterialType::Ingenuity,
            TalentLevelUpMaterialType::Elegance,
            TalentLevelUpMaterialType::Diligence,
            TalentLevelUpMaterialType::Resistance,
        ]
    } else {
        seq![
            TalentLevelUpMaterialType::Conflict,
            TalentLevelUpMaterialType::Order,
            TalentLevelUpMaterialType::Praxis,
            TalentLevelUpMaterialType::Light,
            TalentLevelUpMaterialType::Gold,
            TalentLevelUpMaterialType::Ballad,
        ]
    }
}

/// The fixed table. Monday, Tuesday and Wednesday are written out;
/// Thursday, Friday and Saturday repeat them in turn; on Sunday every type
/// can be collected.
pub open spec fn fixed_list(day: DayOfWeek) -> Seq<TalentLevelUpMaterialType> {
    if day == DayOfWeek::Sunday {
        all_members().reverse()
    } else {
        written_list(day.spec_index() % 3)
    }
}

/// For each day of the week, the material types that can be collected on
/// it. Every day has at least one type, and every list runs newest first.
#[derive(Debug)]
pub struct Schedule {
    lists: Vec<Vec<TalentLevelUpMaterialType>>,
}

impl View for Schedule {
    type V = Map<DayOfWeek, Seq<TalentLevelUpMaterialType>>;

    closed spec fn view(&self) -> Map<DayOfWeek, Seq<TalentLevelUpMaterialType>> {
        Map::new(|day: DayOfWeek| true, |day: DayOfWeek| self.lists[day.spec_index()]@)
    }
}

impl Schedule {
    #[verifier::type_invariant]
    spec fn wf(&self) -> bool {
        &&& self.lists.len() == 7
        &&& forall|k: int| 0 <= k < 7 ==> (#[trigger] self.lists[k]).len() > 0
        &&& forall|k: int| 0 <= k < 7 ==> newest_first((#[trigger] self.lists[k])@)
    }

    /// How many days the schedule covers: all seven.
    pub fn len(&self) -> (n: usize)
        ensures
            n == 7,
            self@.dom() == Set::<DayOfWeek>::full(),
    {
        proof {
            use_type_invariant(self);
            assert(self@.dom() =~= Set::<DayOfWeek>::full());
        }
        self.lists.len()
    }

    /// The types that can be collected on `day`. There is a list for every
    /// day, and none is empty.
    pub fn get(&self, day: &DayOfWeek) -> (list: Option<&Vec<TalentLevelUpMaterialType>>)
        ensures
            self@.contains_key(*day),
            list matches Some(types) && types@ == self@[*day] && types.len() > 0 && newest_first(
                types@,
            ),
    {
        proof {
            use_type_invariant(self);
        }
        Some(&self.lists[day.index()])
    }
}

/// The pairs of one item's labels.
fn collect_label_pairs(
    labels: &Vec<String>,
    t: Option<TalentLevelUpMaterialType>,
    pairs: &mut Vec<Availability>,
) -> (outcome: Result<(), ScheduleDerivationError>)
    ensures
        match outcome {
            Ok(_) => label_pairs(labels@, t) matches Ok(more) && final(pairs)@ == old(pairs)@
                + more,
            Err(e) => label_pairs(labels@, t) == Err::<Seq<Availability>, _>(e),
        },
{
    let mut j: usize = 0;
    while j < labels.len()
        invariant
            j <= labels.len(),
            label_pairs(labels@.take(j as int), t) matches Ok(more) && pairs@ == old(pairs)@
                + more,
        decreases labels.len() - j,
    {
        proof {
            assert(labels@.take(j + 1).drop_last() == labels@.take(j as int));
        }
        let day = match DayOfWeek::from_name(labels[j].as_str()) {
            Some(day) => day,
            None => {
                proof {
                    lemma_label_pairs_fail(labels@, t, j + 1);
                }
                return Err(ScheduleDerivationError::UnknownWeekday);
            },
        };
        let t = match t {
            Some(t) => t,
            None => {
                proof {
                    lemma_label_pairs_fail(labels@, t, j + 1);
                }
                return Err(ScheduleDerivationError::UnknownMaterial);
            },
        };
        pairs.push((day, t));
        proof {
            let before = label_pairs(labels@.take(j as int), Some(t))->Ok_0;
            assert(old(pairs)@ + before.push((day, t)) == (old(pairs)@ + before).push((day, t)));
        }
        j += 1;
    }
    proof {
        assert(labels@.take(labels.len() as int) == labels@);
    }
    Ok(())
}

/// Once the labels up to some point have failed, the whole list fails in
/// the same way.
proof fn lemma_label_pairs_fail(
    labels: Seq<String>,
    t: Option<TalentLevelUpMaterialType>,
    upto: int,
)
    requires
        0 <= upto <= labels.len(),
        label_pairs(labels.take(upto), t) is Err,
    ensures
        label_pairs(labels, t) == label_pairs(labels.take(upto), t),
    decreases labels.len() - upto,
{
    if upto < labels.len() {
        assert(labels.take(upto + 1).drop_last() == labels.take(upto));
        lemma_label_pairs_fail(labels, t, upto + 1);
    } else {
        assert(labels.take(upto) == labels);
    }
}

/// Once the records up to some point have failed, the whole catalog fails
/// in the same way.
proof fn lemma_catalog_pairs_fail(entries: Seq<ResourceEntry>, upto: int)
    requires
        0 <= upto <= entries.len(),
        catalog_pairs(entries.take(upto)) is Err,
    ensures
        catalog_pairs(entries) == catalog_pairs(entries.take(upto)),
    decreases entries.len() - upto,
{
    if upto < entries.len() {
        assert(entries.take(upto + 1).drop_last() == entries.take(upto));
        lemma_catalog_pairs_fail(entries, upto + 1);
    } else {
        assert(entries.take(upto) == entries);
    }
}

/// The pairs of all records.
fn collect_pairs(entries: &Vec<ResourceEntry>) -> (outcome: Result<
    Vec<Availability>,
    ScheduleDerivationError,
>)
    ensures
        match outcome {
            Ok(pairs) => catalog_pairs(entries@) == Ok::<_, ScheduleDerivationError>(pairs@),
            Err(e) => catalog_pairs(entries@) == Err::<Seq<Availability>, _>(e),
        },
{
    let mut pairs: Vec<Availability> = Vec::new();
    let mut i: usize = 0;
    while i < entries.len()
        invariant
            i <= entries.len(),
            catalog_pairs(entries@.take(i as int)) == Ok::<_, ScheduleDerivationError>(pairs@),
        decreases entries.len() - i,
    {
        proof {
            assert(entries@.take(i + 1).drop_last() == entries@.take(i as int));
        }
        let entry = &entries[i];
        if contains_text(entry.name.as_str(), TEACHINGS_PREFIX) {
            let labels = match &entry.days {
                Some(labels) => labels,
                None => {
                    proof {
                        lemma_catalog_pairs_fail(entries@, i + 1);
                    }
                    return Err(ScheduleDerivationError::MissingWeekdays);
                },
            };
            let t = TalentLevelUpMaterialType::from_full_name(entry.name.as_str());
            match collect_label_pairs(labels, t, &mut pairs) {
                Ok(_) => {},
                Err(e) => {
                    proof {
                        lemma_catalog_pairs_fail(entries@, i + 1);
                    }
                    return Err(e);
                },
            }
        } else {
            assert(pairs@ + Seq::<Availability>::empty() == pairs@);
        }
        i += 1;
    }
    proof {
        assert(entries@.take(entries.len() as int) == entries@);
    }
    Ok(pairs)
}

/// The types that `pairs` give for `day`, newest first.
fn list_for(pairs: &Vec<Availability>, day: DayOfWeek) -> (list: Vec<TalentLevelUpMaterialType>)
    ensures
        is_list_for(list@, pairs@, day),
        list.len() == types_on(pairs@, day).len(),
{
    let mut list: Vec<TalentLevelUpMaterialType> = Vec::new();
    let mut i: usize = 0;
    proof {
        pairs@.take(0).lemma_filter_len(on_day(day));
        assert(types_on(pairs@.take(0), day) =~= Seq::<TalentLevelUpMaterialType>::empty());
    }
    while i < pairs.len()
        invariant
            i <= pairs.len(),
            is_list_for(list@, pairs@.take(i as int), day),
            list.len() == types_on(pairs@.take(i as int), day).len(),
        decreases pairs.len() - i,
    {
        proof {
            assert(pairs@.take(i + 1).drop_last() == pairs@.take(i as int));
            lemma_types_on_step(pairs@.take(i + 1), day);
        }
        let (on, t) = pairs[i];
        if on == day {
            let mut at: usize = 0;
            while at < list.len() && list[at].ordinal() >= t.ordinal()
                invariant
                    at <= list.len(),
                    forall|k: int| 0 <= k < at ==> list[k].spec_ordinal() >= t.spec_ordinal(),
                decreases list.len() - at,
            {
                at += 1;
            }
            proof {
                let before = list@;
                let after = before.insert(at as int, t);
                to_multiset_insert(before, at as int, t);
                to_multiset_build(types_on(pairs@.take(i as int), day), t);
                assert forall|a: int, b: int| 0 <= a < b < after.len() implies after[a].spec_ordinal()
                    >= after[b].spec_ordinal() by {
                    if b < at {
                        assert(after[a] == before[a] && after[b] == before[b]);
                    } else if b == at {
                        assert(after[a] == before[a]);
                    } else if a < at {
                        assert(after[a] == before[a] && after[b] == before[b - 1]);
                        if at < before.len() {
                            assert(before[at as int].spec_ordinal() >= before[b - 1].spec_ordinal());
                        }
                    } else if a == at {
                        assert(after[b] == before[b - 1]);
                        assert(before[at as int].spec_ordinal() >= before[b - 1].spec_ordinal());
                    } else {
                        assert(after[a] == before[a - 1] && after[b] == before[b - 1]);
                    }
                }
            }
            list.insert(at, t);
        }
        i += 1;
    }
    proof {
        assert(pairs@.take(pairs.len() as int) == pairs@);
    }
    list
}

/// Derives the schedule from the index of talent materials. Every teachings
/// item says on which days its type can be collected; the list of a day
/// holds the types of all items that list the day, newest first.
///
/// The derivation fails where a teachings item lists no days, lists a label
/// that names no day, or lists days under a name that tells no type; and
/// where, in the end, some day of the week is left without any type.
pub fn day_to_mat_type(resources: &ResourceIndex) -> (outcome: Result<
    Schedule,
    ScheduleDerivationError,
>)
    ensures
        match outcome {
            Ok(schedule) => derivation(resources.spec_entries()) matches Ok(pairs) && forall|
                day: DayOfWeek,
            |
                schedule@.contains_key(day) && is_list_for(#[trigger] schedule@[day], pairs, day)
                    && schedule@[day].len() > 0,
            Err(e) => derivation(resources.spec_entries()) == Err::<Seq<Availability>, _>(e),
        },
{
    let pairs = match collect_pairs(resources.values()) {
        Ok(pairs) => pairs,
        Err(e) => { return Err(e); },
    };
    let mut lists: Vec<Vec<TalentLevelUpMaterialType>> = Vec::new();
    let mut k: usize = 0;
    while k < 7
        invariant
            k <= 7,
            lists.len() == k,
            catalog_pairs(resources.spec_entries()) == Ok::<_, ScheduleDerivationError>(pairs@),
            forall|d: int|
                0 <= d < k ==> is_list_for(
                    (#[trigger] lists[d])@,
                    pairs@,
                    DayOfWeek::spec_from_index(d),
                ) && lists[d].len() > 0,
        decreases 7 - k,
    {
        let day = match DayOfWeek::from_index(k) {
            Some(day) => day,
            None => { return Err(ScheduleDerivationError::UncoveredWeekday); },
        };
        let list = list_for(&pairs, day);
        if list.len() == 0 {
            assert(types_on(pairs@, day).len() == 0);
            return Err(ScheduleDerivationError::UncoveredWeekday);
        }
        lists.push(list);
        k += 1;
    }
    let schedule = Schedule { lists };
    proof {
        assert forall|day: DayOfWeek| types_on(pairs@, day).len() > 0 by {
            let d = day.spec_index();
            assert(DayOfWeek::spec_from_index(d) == day);
            assert(is_list_for(lists[d]@, pairs@, day));
            lists[d]@.to_multiset_ensures();
            types_on(pairs@, day).to_multiset_ensures();
        }
        assert forall|day: DayOfWeek|
            schedule@.contains_key(day) && is_list_for(#[trigger] schedule@[day], pairs@, day)
                && schedule@[day].len() > 0 by {
            let d = day.spec_index();
            assert(DayOfWeek::spec_from_index(d) == day);
            assert(schedule@[day] == lists[d]@);
        }
    }
    Ok(schedule)
}

/// One of the lists that the fixed table writes out.
fn written(k: usize) -> (list: Vec<TalentLevelUpMaterialType>)
    ensures
        list@ == written_list(k as int),
{
    let list = if k == 0 {
        vec![
            TalentLevelUpMaterialType::Contention,
            TalentLevelUpMaterialType::Equity,
            TalentLevelUpMaterialType::Admonition,
            TalentLevelUpMaterialType::Transience,
            TalentLevelUpMaterialType::Prosperity,
            TalentLevelUpMaterialType::Freedom,
        ]
    } else if k == 1 {
        vec![
            TalentLevelUpMaterialType::Kindling,
            TalentLevelUpMaterialType::Justice,
            TalentLevelUpMaterialType::Ingenuity,
            TalentLevelUpMaterialType::Elegance,
            TalentLevelUpMaterialType::Diligence,
            TalentLevelUpMaterialType::Resistance,
        ]
    } else {
        vec![
            TalentLevelUpMaterialType::Conflict,
            TalentLevelUpMaterialType::Order,
            TalentLevelUpMaterialType::Praxis,
            TalentLevelUpMaterialType::Light,
            TalentLevelUpMaterialType::Gold,
            TalentLevelUpMaterialType::Ballad,
        ]
    };
    assert(list@ =~= written_list(k as int));
    list
}

/// Every type, newest first.
fn every_type_newest_first() -> (list: Vec<TalentLevelUpMaterialType>)
    ensures
        list@ == all_members().reverse(),
{
    let mut list: Vec<TalentLevelUpMaterialType> = Vec::new();
    let members = TalentLevelUpMaterialType::all();
    let mut k: usize = MATERIAL_TYPE_COUNT;
    while k > 0
        invariant
            k <= MATERIAL_TYPE_COUNT,
            members@ == all_members(),
            list.len() == MATERIAL_TYPE_COUNT - k,
            forall|i: int|
                0 <= i < list.len() ==> list[i] == all_members()[MATERIAL_TYPE_COUNT - 1 - i],
        decreases k,
    {
        k -= 1;
        list.push(members[k]);
    }
    assert(list@ =~= all_members().reverse());
    list
}

/// The list of the fixed table for one day.
fn fixed_list_of(day: DayOfWeek) -> (list: Vec<TalentLevelUpMaterialType>)
    ensures
        list@ == fixed_list(day),
{
    match day {
        DayOfWeek::Sunday => every_type_newest_first(),
        _ => written(day.index() % 3),
    }
}

/// The schedule of the fixed table.
pub fn fixed_day_to_mat_type() -> (schedule: Schedule)
    ensures
        forall|day: DayOfWeek|
            schedule@.contains_key(day) && #[trigger] schedule@[day] == fixed_list(day),
{
    let mut lists: Vec<Vec<TalentLevelUpMaterialType>> = Vec::new();
    let mut k: usize = 0;
    while k < 7
        invariant
            k <= 7,
            lists.len() == k,
            forall|d: int|
                0 <= d < k ==> (#[trigger] lists[d])@ == fixed_list(DayOfWeek::spec_from_index(d)),
        decreases 7 - k,
    {
        let list = match DayOfWeek::from_index(k) {
            Some(day) => fixed_list_of(day),
            None => Vec::new(),
        };
        lists.push(list);
        k += 1;
    }
    proof {
        lemma_fixed_table();
    }
    let schedule = Schedule { lists };
    proof {
        assert forall|day: DayOfWeek|
            schedule@.contains_key(day) && #[trigger] schedule@[day] == fixed_list(day) by {
            let d = day.spec_index();
            assert(DayOfWeek::spec_from_index(d) == day);
            assert(schedule@[day] == lists[d]@);
        }
    }
    schedule
}

/// The fixed table covers the week: every day has a list, no list is
/// empty, every list runs newest first, and Sunday's list is the whole
/// enumeration, each type once.
pub proof fn lemma_fixed_table()
    ensures
        forall|day: DayOfWeek| (#[trigger] fixed_list(day)).len() > 0,
        forall|day: DayOfWeek| newest_first(#[trigger] fixed_list(day)),
        fixed_list(DayOfWeek::Sunday).len() == MATERIAL_TYPE_COUNT,
        forall|t: TalentLevelUpMaterialType|
            fixed_list(DayOfWeek::Sunday)[MATERIAL_TYPE_COUNT - 1 - t.spec_ordinal()] == t,
        forall|t: TalentLevelUpMaterialType| fixed_list(DayOfWeek::Sunday).contains(t),
        fixed_list(DayOfWeek::Sunday).no_duplicates(),
{
    let sunday = fixed_list(DayOfWeek::Sunday);
    assert(sunday.len() == MATERIAL_TYPE_COUNT);
    assert forall|i: int| 0 <= i < MATERIAL_TYPE_COUNT implies (#[trigger] sunday[i]).spec_ordinal()
        == MATERIAL_TYPE_COUNT - 1 - i by {
        assert(sunday[i] == all_members()[MATERIAL_TYPE_COUNT - 1 - i]);
    }
    assert forall|t: TalentLevelUpMaterialType| sunday.contains(t) by {
        assert(sunday[MATERIAL_TYPE_COUNT - 1 - t.spec_ordinal()] == t);
    }
    assert forall|day: DayOfWeek| newest_first(#[trigger] fixed_list(day)) by {
        if day != DayOfWeek::Sunday {
            lemma_written_lists();
        }
    }
    assert forall|day: DayOfWeek| (#[trigger] fixed_list(day)).len() > 0 by {
        if day != DayOfWeek::Sunday {
            lemma_written_lists();
        }
    }
}

/// Each list that the fixed table writes out has six types and runs newest
/// first: it holds, of every region, the type at one and the same place.
pub proof fn lemma_written_lists()
    ensures
        forall|k: int| (#[trigger] written_list(k)).len() == 6,
        forall|k: int| newest_first(#[trigger] written_list(k)),
        forall|k: int, i: int|
            0 <= k < 3 && 0 <= i < 6 ==> (#[trigger] written_list(k)[i]).spec_ordinal() == 3 * (5
                - i) + k,
{
    assert forall|k: int| (#[trigger] written_list(k)).len() == 6 && newest_first(
        written_list(k),
    ) by {
        let list = written_list(k);
        assert(list.len() == 6);
        assert forall|i: int| 0 <= i < 6 implies (#[trigger] list[i]).spec_ordinal() == 3 * (5 - i)
            + (if k == 0 {
            0int
        } else if k == 1 {
            1int
        } else {
            2int
        }) by {
            if i == 0 {
            } else if i == 1 {
            } else if i == 2 {
            } else if i == 3 {
            } else if i == 4 {
            } else {
            }
        }
    }
    assert forall|k: int, i: int| 0 <= k < 3 && 0 <= i < 6 implies (#[trigger] written_list(
        k,
    )[i]).spec_ordinal() == 3 * (5 - i) + k by {
        let list = written_list(k);
        if i == 0 {
        } else if i == 1 {
        } else if i == 2 {
        } else if i == 3 {
        } else if i == 4 {
        } else {
        }
    }
}

/// There is one list for a day and no other: two lists that run newest
/// first and hold the same types equally often are the same list.
pub proof fn lemma_list_for_unique(
    one: Seq<TalentLevelUpMaterialType>,
    other: Seq<TalentLevelUpMaterialType>,
    pairs: Seq<Availability>,
    day: DayOfWeek,
)
    requires
        is_list_for(one, pairs, day),
        is_list_for(other, pairs, day),
    ensures
        one == other,
{
    let newer = |a: TalentLevelUpMaterialType, b: TalentLevelUpMaterialType|
        a.spec_ordinal() >= b.spec_ordinal();
    lemma_ordinal_round_trip();
    assert(total_ordering(newer)) by {
        assert forall|a: TalentLevelUpMaterialType, b: TalentLevelUpMaterialType|
            #[trigger] newer(a, b) && #[trigger] newer(b, a) implies a == b by {
            assert(TalentLevelUpMaterialType::spec_member(a.spec_ordinal()) == a);
            assert(TalentLevelUpMaterialType::spec_member(b.spec_ordinal()) == b);
        }
    }
    assert(sorted_by(one, newer));
    assert(sorted_by(other, newer));
    lemma_sorted_unique(one, other, newer);
}

/// Where the catalog gives every type for Sunday, each once, Sunday's list
/// is the whole enumeration, newest first.
pub proof fn lemma_sunday_holds_every_type(
    list: Seq<TalentLevelUpMaterialType>,
    pairs: Seq<Availability>,
)
    requires
        is_list_for(list, pairs, DayOfWeek::Sunday),
        types_on(pairs, DayOfWeek::Sunday).to_multiset() == all_members().to_multiset(),
    ensures
        list == all_members().reverse(),
        list == fixed_list(DayOfWeek::Sunday),
{
    lemma_fixed_table();
    all_members().lemma_reverse_to_multiset();
    lemma_list_for_unique(list, all_members().reverse(), pairs, DayOfWeek::Sunday);
}

/// The record is a teachings item that gives the pair: its name tells the
/// pair's type, and its label at `label_at` names the pair's day.
pub open spec fn entry_gives(entry: ResourceEntry, label_at: int, pair: Availability) -> bool {
    &&& is_teachings(entry.name@)
    &&& classify(entry.name@) == Some(pair.1)
    &&& entry.days matches Some(labels)
    &&& 0 <= label_at < labels.len()
    &&& DayOfWeek::spec_from_name(labels[label_at]@) == Some(pair.0)
}

/// No type comes into a schedule from nowhere. Every pair that a catalog
/// gives goes back to a teachings item: the item's name tells the pair's
/// type, and one of the item's labels names the pair's day.
pub proof fn lemma_pairs_come_from_entries(entries: Seq<ResourceEntry>, k: int)
    requires
        catalog_pairs(entries) is Ok,
        0 <= k < catalog_pairs(entries)->Ok_0.len(),
    ensures
        exists|i: int, j: int|
            0 <= i < entries.len() && #[trigger] entry_gives(
                entries[i],
                j,
                catalog_pairs(entries)->Ok_0[k],
            ),
    decreases entries.len(),
{
    let head = entries.drop_last();
    let last = entries.len() - 1;
    let before = catalog_pairs(head)->Ok_0;
    let more = entry_pairs(entries.last())->Ok_0;
    let pair = catalog_pairs(entries)->Ok_0[k];
    if k < before.len() {
        assert(pair == before[k]);
        lemma_pairs_come_from_entries(head, k);
        let (i, j) = choose|i: int, j: int|
            0 <= i < head.len() && #[trigger] entry_gives(head[i], j, before[k]);
        assert(entries[i] == head[i]);
        assert(entry_gives(entries[i], j, pair));
    } else {
        let entry = entries[last];
        let at = k - before.len();
        assert(pair == more[at]);
        let labels = entry.days->Some_0;
        lemma_label_pairs_come_from_labels(labels@, classify(entry.name@), at);
        assert(entry_gives(entries[last], at, pair));
    }
}

proof fn lemma_label_pairs_come_from_labels(
    labels: Seq<String>,
    t: Option<TalentLevelUpMaterialType>,
    k: int,
)
    requires
        label_pairs(labels, t) is Ok,
        0 <= k < label_pairs(labels, t)->Ok_0.len(),
    ensures
        t == Some(label_pairs(labels, t)->Ok_0[k].1),
        label_pairs(labels, t)->Ok_0.len() == labels.len(),
        DayOfWeek::spec_from_name(labels[k]@) == Some(label_pairs(labels, t)->Ok_0[k].0),
    decreases labels.len(),
{
    let head = labels.drop_last();
    lemma_label_pairs_len(labels, t);
    lemma_label_pairs_len(head, t);
    if k < head.len() {
        lemma_label_pairs_come_from_labels(head, t, k);
    }
}

proof fn lemma_label_pairs_len(labels: Seq<String>, t: Option<TalentLevelUpMaterialType>)
    requires
        label_pairs(labels, t) is Ok,
    ensures
        label_pairs(labels, t)->Ok_0.len() == labels.len(),
    decreases labels.len(),
{
    if labels.len() > 0 {
        lemma_label_pairs_len(labels.drop_last(), t);
    }
}

/// Every type of a day's list is a type that the catalog gives for the
/// day, and every type that the catalog gives for the day is in the list.
pub proof fn lemma_list_holds_what_catalog_gives(
    list: Seq<TalentLevelUpMaterialType>,
    pairs: Seq<Availability>,
    day: DayOfWeek,
    t: TalentLevelUpMaterialType,
)
    requires
        is_list_for(list, pairs, day),
    ensures
        list.contains(t) <==> pairs.contains((day, t)),
        list.len() == types_on(pairs, day).len(),
{
    list.to_multiset_ensures();
    types_on(pairs, day).to_multiset_ensures();
    lemma_types_on_contains(pairs, day, t);
    assert(list.contains(t) <==> list.to_multiset().count(t) > 0);
    assert(types_on(pairs, day).contains(t) <==> types_on(pairs, day).to_multiset().count(t) > 0);
}

proof fn lemma_types_on_contains(
    pairs: Seq<Availability>,
    day: DayOfWeek,
    t: TalentLevelUpMaterialType,
)
    ensures
        types_on(pairs, day).contains(t) <==> pairs.contains((day, t)),
    decreases pairs.len(),
{
    if pairs.len() == 0 {
        pairs.lemma_filter_len(on_day(day));
    } else {
        let head = pairs.drop_last();
        let now = types_on(pairs, day);
        let before = types_on(head, day);
        lemma_types_on_contains(head, day, t);
        lemma_types_on_step(pairs, day);
        if now.contains(t) {
            let k = choose|k: int| 0 <= k < now.len() && now[k] == t;
            if k < before.len() {
                assert(before[k] == t);
                let w = choose|w: int| 0 <= w < head.len() && head[w] == (day, t);
                assert(pairs[w] == (day, t));
            } else {
                assert(pairs[pairs.len() - 1] == (day, t));
            }
        }
        if pairs.contains((day, t)) {
            let w = choose|w: int| 0 <= w < pairs.len() && pairs[w] == (day, t);
            if w < head.len() {
                assert(head[w] == (day, t));
                let k = choose|k: int| 0 <= k < before.len() && before[k] == t;
                assert(now[k] == t);
            } else {
                assert(now[now.len() - 1] == t);
            }
        }
    }
}

/// The rule by which the game hands out materials: on Sunday every type,
/// on any other day the types that hold, within their region, the place
/// that the day holds within its half of the week.
pub open spec fn in_season(day: DayOfWeek, t: TalentLevelUpMaterialType) -> bool {
    day == DayOfWeek::Sunday || day.spec_index() % 3 == t.spec_ordinal() % 3
}

/// The pairs say what the rule says, each pair once.
pub open spec fn follows_rule(pairs: Seq<Availability>) -> bool {
    forall|day: DayOfWeek, t: TalentLevelUpMaterialType|
        #[trigger] pairs.to_multiset().count((day, t)) == if in_season(day, t) {
            1nat
        } else {
            0nat
        }
}

/// The fixed table is what a catalog gives that follows the rule: the two
/// ways to a schedule agree on such a catalog.
pub proof fn lemma_rule_gives_fixed_table(
    list: Seq<TalentLevelUpMaterialType>,
    pairs: Seq<Availability>,
    day: DayOfWeek,
)
    requires
        follows_rule(pairs),
        is_list_for(list, pairs, day),
    ensures
        list == fixed_list(day),
{
    let fixed = fixed_list(day);
    lemma_fixed_table();
    assert forall|t: TalentLevelUpMaterialType|
        fixed.to_multiset().count(t) == types_on(pairs, day).to_multiset().count(t) by {
        lemma_fixed_list_counts(day, t);
        lemma_types_on_counts(pairs, day, t);
        assert(pairs.to_multiset().count((day, t)) == if in_season(day, t) {
            1nat
        } else {
            0nat
        });
    }
    assert(fixed.to_multiset() =~= types_on(pairs, day).to_multiset());
    lemma_list_for_unique(list, fixed, pairs, day);
}

/// The fixed table holds a type for a day once if the rule gives it, and
/// not at all if not.
pub proof fn lemma_fixed_list_counts(day: DayOfWeek, t: TalentLevelUpMaterialType)
    ensures
        fixed_list(day).to_multiset().count(t) == if in_season(day, t) {
            1nat
        } else {
            0nat
        },
        fixed_list(day).no_duplicates(),
        fixed_list(day).contains(t) <==> in_season(day, t),
{
    let fixed = fixed_list(day);
    lemma_fixed_table();
    lemma_written_lists();
    lemma_ordinal_round_trip();
    if day != DayOfWeek::Sunday {
        let k = day.spec_index() % 3;
        assert forall|i: int, j: int| 0 <= i < fixed.len() && 0 <= j < fixed.len() && i
            != j implies fixed[i] != fixed[j] by {
            assert(written_list(k)[i].spec_ordinal() == 3 * (5 - i) + k);
            assert(written_list(k)[j].spec_ordinal() == 3 * (5 - j) + k);
        }
        if in_season(day, t) {
            let i = 5 - (t.spec_ordinal() - k) / 3;
            assert(written_list(k)[i].spec_ordinal() == 3 * (5 - i) + k);
            assert(TalentLevelUpMaterialType::spec_member(written_list(k)[i].spec_ordinal())
                == written_list(k)[i]);
            assert(fixed[i] == t);
        }
        if fixed.contains(t) {
            let i = choose|i: int| 0 <= i < fixed.len() && fixed[i] == t;
            assert(written_list(k)[i].spec_ordinal() == 3 * (5 - i) + k);
        }
    }
    fixed.lemma_multiset_has_no_duplicates();
    fixed.to_multiset_ensures();
    assert(fixed.contains(t) <==> fixed.to_multiset().count(t) > 0);
}

/// A day's types hold a type as often as the pairs hold the pair of the day
/// and the type.
proof fn lemma_types_on_counts(pairs: Seq<Availability>, day: DayOfWeek, t: TalentLevelUpMaterialType)
    ensures
        types_on(pairs, day).to_multiset().count(t) == pairs.to_multiset().count((day, t)),
    decreases pairs.len(),
{
    if pairs.len() == 0 {
        pairs.lemma_filter_len(on_day(day));
        pairs.to_multiset_ensures();
        types_on(pairs, day).to_multiset_ensures();
        assert(pairs.to_multiset().len() == 0);
        assert(types_on(pairs, day).to_multiset().len() == 0);
        vstd::multiset::lemma_multiset_empty_len(pairs.to_multiset());
        vstd::multiset::lemma_multiset_empty_len(types_on(pairs, day).to_multiset());
    } else {
        let head = pairs.drop_last();
        lemma_types_on_counts(head, day, t);
        lemma_types_on_step(pairs, day);
        assert(head.push(pairs.last()) == pairs);
        to_multiset_build(head, pairs.last());
        to_multiset_build(types_on(head, day), pairs.last().1);
    }
}

/// The record gives the derivation nothing to stumble on: it is no
/// teachings item, or it lists days, all its labels name days, and, where
/// it lists any, its name tells a type.
pub open spec fn is_readable(entry: ResourceEntry) -> bool {
    is_teachings(entry.name@) ==> {
        &&& entry.days matches Some(labels)
        &&& all_days_known(labels@)
        &&& labels.len() > 0 ==> classify(entry.name@).is_some()
    }
}

/// The records of a catalog give their pairs exactly when every record is
/// readable.
pub proof fn lemma_pairs_when_readable(entries: Seq<ResourceEntry>)
    ensures
        catalog_pairs(entries) is Ok <==> forall|i: int|
            0 <= i < entries.len() ==> is_readable(#[trigger] entries[i]),
    decreases entries.len(),
{
    if entries.len() > 0 {
        let head = entries.drop_last();
        let last = entries.len() - 1;
        lemma_pairs_when_readable(head);
        if is_teachings(entries[last].name@) && entries[last].days is Some {
            lemma_label_pairs_when_known(
                entries[last].days->Some_0@,
                classify(entries[last].name@),
            );
        }
        if catalog_pairs(entries) is Ok {
            assert forall|i: int| 0 <= i < entries.len() implies is_readable(
                #[trigger] entries[i],
            ) by {
                if i < last {
                    assert(head[i] == entries[i]);
                }
            }
        }
        if forall|i: int| 0 <= i < entries.len() ==> is_readable(#[trigger] entries[i]) {
            assert forall|i: int| 0 <= i < head.len() implies is_readable(#[trigger] head[i]) by {
                assert(head[i] == entries[i]);
            }
            assert(is_readable(entries[last]));
        }
    }
}

proof fn lemma_label_pairs_when_known(labels: Seq<String>, t: Option<TalentLevelUpMaterialType>)
    ensures
        label_pairs(labels, t) is Ok <==> all_days_known(labels) && (labels.len() > 0
            ==> t.is_some()),
    decreases labels.len(),
{
    if labels.len() > 0 {
        let head = labels.drop_last();
        let last = labels.len() - 1;
        lemma_label_pairs_when_known(head, t);
        if label_pairs(labels, t) is Ok {
            assert forall|i: int| 0 <= i < labels.len() implies DayOfWeek::spec_from_name(
                labels[i]@,
            ).is_some() by {
                if i < last {
                    assert(head[i] == labels[i]);
                }
            }
        }
        if all_days_known(labels) {
            assert forall|i: int| 0 <= i < head.len() implies DayOfWeek::spec_from_name(
                head[i]@,
            ).is_some() by {
                assert(head[i] == labels[i]);
            }
            assert(DayOfWeek::spec_from_name(labels[last]@).is_some());
        }
    }
}

} // verus!

//! The index of talent materials: the records of the resource catalog that
//! describe talent level-up materials, found by name.

use crate::catalog::{ResourceEntry, ResourcesRoot};
use crate::day::DayOfWeek;
use crate::text::same_text;
use vstd::hash_map::StringHashMap;
use vstd::prelude::*;

verus! {

/// The kind that the resource catalog gives to talent level-up materials.
pub const LEVEL_UP_MAT: &'static str = "Talent Level-Up Material";

/// The object type that the resource catalog gives to items.
pub const ITEM_OBJECT: &'static str = "item";

impl ResourceEntry {
    /// The record describes an item whose kind is talent level-up material.
    pub open spec fn spec_is_talent_item(&self) -> bool {
        self.object_type@ == ITEM_OBJECT@ && self.type_field@ == LEVEL_UP_MAT@
    }

    /// Whether the record describes an item whose kind is talent level-up
    /// material.
    pub fn is_talent_item(&self) -> (yes: bool)
        ensures
            yes == self.spec_is_talent_item(),
    {
        same_text(self.object_type.as_str(), ITEM_OBJECT) && same_text(
            self.type_field.as_str(),
            LEVEL_UP_MAT,
        )
    }
}

/// Some record among `entries` is called `name`.
pub open spec fn names_entry(entries: Seq<ResourceEntry>, name: Seq<char>) -> bool {
    exists|i: int| 0 <= i < entries.len() && entries[i].name@ == name
}

/// The position among `entries` of a record called `name`.
pub open spec fn position_of(entries: Seq<ResourceEntry>, name: Seq<char>) -> Option<int> {
    if names_entry(entries, name) {
        Some(choose|i: int| 0 <= i < entries.len() && entries[i].name@ == name)
    } else {
        None
    }
}

/// The record among `entries` called `name`.
pub open spec fn lookup(entries: Seq<ResourceEntry>, name: Seq<char>) -> Option<ResourceEntry> {
    match position_of(entries, name) {
        Some(i) => Some(entries[i]),
        None => None,
    }
}

/// What an index may hold: talent items only, and no two of one name.
pub open spec fn is_index(entries: Seq<ResourceEntry>) -> bool {
    &&& forall|i: int| 0 <= i < entries.len() ==> (#[trigger] entries[i]).spec_is_talent_item()
    &&& forall|i: int, j: int|
        0 <= i < entries.len() && 0 <= j < entries.len() && (#[trigger] entries[i]).name@ == (
        #[trigger] entries[j]).name@ ==> i == j
}

/// The records that an index keeps of a raw catalog. The catalog is read
/// front to back. A record that is no talent item is passed over. A talent
/// item whose name is new is added at the end; one whose name is already
/// held takes the place of the record held under that name, so of several
/// records of one name the last one counts.
pub open spec fn retained(raw: Seq<ResourceEntry>) -> Seq<ResourceEntry>
    decreases raw.len(),
{
    if raw.len() == 0 {
        Seq::empty()
    } else {
        let before = retained(raw.drop_last());
        let entry = raw.last();
        if !entry.spec_is_talent_item() {
            before
        } else {
            match position_of(before, entry.name@) {
                Some(i) => before.update(i, entry),
                None => before.push(entry),
            }
        }
    }
}

/// Every label names a day.
pub open spec fn all_days_known(labels: Seq<String>) -> bool {
    forall|i: int| 0 <= i < labels.len() ==> DayOfWeek::spec_from_name(labels[i]@).is_some()
}

/// The days that the labels name, label by label.
pub open spec fn days_of(labels: Seq<String>) -> Seq<DayOfWeek> {
    Seq::new(labels.len(), |i: int| DayOfWeek::spec_from_name(labels[i]@).unwrap())
}

/// The days on which the material called `name` can be collected, as far as
/// `entries` tell: the record of that name must exist, must be a talent
/// item, and must list at least one day, and every label in its list must
/// name a day. The days come in the order of the list.
pub open spec fn weekdays_of(entries: Seq<ResourceEntry>, name: Seq<char>) -> Option<
    Seq<DayOfWeek>,
> {
    match lookup(entries, name) {
        Some(entry) => match entry.days {
            Some(labels) => if entry.spec_is_talent_item() && labels.len() > 0 && all_days_known(
                labels@,
            ) {
                Some(days_of(labels@))
            } else {
                None
            },
            None => None,
        },
        None => None,
    }
}

/// In a sequence without repeated names, a record is found under its own
/// name and under no other.
pub proof fn lemma_lookup_unique(entries: Seq<ResourceEntry>, i: int)
    requires
        is_index(entries),
        0 <= i < entries.len(),
    ensures
        position_of(entries, entries[i].name@) == Some(i),
        lookup(entries, entries[i].name@) == Some(entries[i]),
{
    assert(names_entry(entries, entries[i].name@));
}

/// What an index keeps of a catalog is well formed, and is found by name as
/// the catalog's last talent item of that name.
pub proof fn lemma_retained(raw: Seq<ResourceEntry>)
    ensures
        is_index(retained(raw)),
        forall|name: Seq<char>|
            names_entry(retained(raw), name) <==> exists|k: int|
                0 <= k < raw.len() && (#[trigger] raw[k]).spec_is_talent_item() && raw[k].name@
                    == name,
        forall|k: int|
            0 <= k < raw.len() && (#[trigger] raw[k]).spec_is_talent_item() && (forall|m: int|
                k < m < raw.len() && raw[m].spec_is_talent_item() ==> raw[m].name@ != raw[k].name@)
                ==> lookup(retained(raw), raw[k].name@) == Some(raw[k]),
    decreases raw.len(),
{
    if raw.len() > 0 {
        let head = raw.drop_last();
        let before = retained(head);
        let entry = raw.last();
        let now = retained(raw);
        lemma_retained(head);
        if entry.spec_is_talent_item() {
            match position_of(before, entry.name@) {
                Some(p) => {
                    assert(now == before.update(p, entry));
                    assert forall|i: int, j: int|
                        0 <= i < now.len() && 0 <= j < now.len() && (#[trigger] now[i]).name@ == (
                        #[trigger] now[j]).name@ implies i == j by {
                        assert(before[i].name@ == now[i].name@);
                        assert(before[j].name@ == now[j].name@);
                    }
                    assert(now[p] == entry);
                },
                None => {
                    assert(now == before.push(entry));
                    assert forall|i: int, j: int|
                        0 <= i < now.len() && 0 <= j < now.len() && (#[trigger] now[i]).name@ == (
                        #[trigger] now[j]).name@ implies i == j by {
                        if i < before.len() && j == before.len() {
                            assert(before[i].name@ == entry.name@);
                        }
                        if j < before.len() && i == before.len() {
                            assert(before[j].name@ == entry.name@);
                        }
                    }
                    assert(now[before.len() as int] == entry);
                },
            }
        }
        assert(is_index(now));
        assert forall|name: Seq<char>| names_entry(now, name) implies exists|k: int|
            0 <= k < raw.len() && (#[trigger] raw[k]).spec_is_talent_item() && raw[k].name@
                == name by {
            let i = choose|i: int| 0 <= i < now.len() && now[i].name@ == name;
            if entry.spec_is_talent_item() && name == entry.name@ {
                assert(raw[raw.len() - 1].spec_is_talent_item());
            } else {
                assert(i < before.len() && before[i].name@ == name);
                assert(names_entry(before, name));
                let k = choose|k: int|
                    0 <= k < head.len() && (#[trigger] head[k]).spec_is_talent_item()
                        && head[k].name@ == name;
                assert(raw[k] == head[k]);
            }
        }
        assert forall|name: Seq<char>|
            (exists|k: int|
                0 <= k < raw.len() && (#[trigger] raw[k]).spec_is_talent_item() && raw[k].name@
                    == name) implies names_entry(now, name) by {
            let k = choose|k: int|
                0 <= k < raw.len() && (#[trigger] raw[k]).spec_is_talent_item() && raw[k].name@
                    == name;
            if entry.spec_is_talent_item() && name == entry.name@ {
                match position_of(before, entry.name@) {
                    Some(p) => {
                        assert(now[p].name@ == name);
                    },
                    None => {
                        assert(now[before.len() as int].name@ == name);
                    },
                }
            } else {
                assert(k < head.len());
                assert(head[k] == raw[k]);
                assert(names_entry(before, name));
                let i = choose|i: int| 0 <= i < before.len() && before[i].name@ == name;
                assert(now[i].name@ == name);
            }
        }
        assert forall|k: int|
            0 <= k < raw.len() && (#[trigger] raw[k]).spec_is_talent_item() && (forall|m: int|
                k < m < raw.len() && raw[m].spec_is_talent_item() ==> raw[m].name@
                    != raw[k].name@) implies lookup(now, raw[k].name@) == Some(raw[k]) by {
            if k == raw.len() - 1 {
                match position_of(before, entry.name@) {
                    Some(p) => {
                        lemma_lookup_unique(now, p);
                    },
                    None => {
                        lemma_lookup_unique(now, before.len() as int);
                    },
                }
            } else {
                assert(head[k] == raw[k]);
                assert forall|m: int|
                    k < m < head.len() && head[m].spec_is_talent_item() implies head[m].name@
                    != head[k].name@ by {
                    assert(head[m] == raw[m]);
                }
                assert(lookup(before, raw[k].name@) == Some(raw[k]));
                let i = position_of(before, raw[k].name@).unwrap();
                if entry.spec_is_talent_item() {
                    assert(raw[raw.len() - 1].name@ != raw[k].name@);
                }
                assert(now[i] == before[i]);
                lemma_lookup_unique(now, i);
            }
        }
    }
}

/// The talent materials of a resource catalog, found by name.
pub struct ResourceIndex {
    entries: Vec<ResourceEntry>,
    slots: StringHashMap<usize>,
}

impl ResourceIndex {
    #[verifier::type_invariant]
    spec fn wf(&self) -> bool {
        &&& is_index(self.entries@)
        &&& forall|i: int|
            0 <= i < self.entries.len() ==> self.slots@.contains_key(
                (#[trigger] self.entries[i]).name@,
            ) && self.slots@[self.entries[i].name@] == i
        &&& forall|name: Seq<char>| #[trigger]
            self.slots@.contains_key(name) ==> self.slots@[name] < self.entries.len()
                && self.entries[self.slots@[name] as int].name@ == name
    }

    /// The records held, in the order in which their names first came up.
    pub closed spec fn spec_entries(&self) -> Seq<ResourceEntry> {
        self.entries@
    }

    /// An index that holds nothing.
    pub fn new() -> (index: ResourceIndex)
        ensures
            index.spec_entries() == Seq::<ResourceEntry>::empty(),
    {
        ResourceIndex { entries: Vec::new(), slots: StringHashMap::new() }
    }

    /// The index with one more record taken in: a talent item goes in, in
    /// place of the record held under the same name if there is one;
    /// anything else is passed over.
    pub fn with_entry(self, entry: ResourceEntry) -> (next: ResourceIndex)
        ensures
            next.spec_entries() == retained(self.spec_entries().push(entry)),
            next.spec_entries() == if !entry.spec_is_talent_item() {
                self.spec_entries()
            } else {
                match position_of(self.spec_entries(), entry.name@) {
                    Some(i) => self.spec_entries().update(i, entry),
                    None => self.spec_entries().push(entry),
                }
            },
    {
        proof {
            use_type_invariant(&self);
            lemma_retained_of_index(self.entries@);
            assert(self.entries@.push(entry).drop_last() == self.entries@);
        }
        if !entry.is_talent_item() {
            return self;
        }
        let ResourceIndex { mut entries, mut slots } = self;
        let found = match slots.get(entry.name.as_str()) {
            Some(at) => Some(*at),
            None => None,
        };
        match found {
            Some(at) => {
                proof {
                    lemma_lookup_unique(entries@, at as int);
                }
                entries.set(at, entry);
            },
            None => {
                assert(!names_entry(entries@, entry.name@));
                let at = entries.len();
                slots.insert(entry.name.clone(), at);
                entries.push(entry);
            },
        }
        ResourceIndex { entries, slots }
    }

    /// How many records are held.
    pub fn len(&self) -> (n: usize)
        ensures
            n == self.spec_entries().len(),
    {
        self.entries.len()
    }

    /// The record called `name`, if one is held.
    pub fn get(&self, name: &str) -> (found: Option<&ResourceEntry>)
        ensures
            found == match lookup(self.spec_entries(), name@) {
                Some(entry) => Some(&entry),
                None => None,
            },
            is_index(self.spec_entries()),
    {
        proof {
            use_type_invariant(self);
        }
        match self.slots.get(name) {
            Some(at) => {
                proof {
                    lemma_lookup_unique(self.entries@, *at as int);
                }
                Some(&self.entries[*at])
            },
            None => {
                assert(!names_entry(self.entries@, name@));
                None
            },
        }
    }

    /// The records held, in the order in which their names first came up.
    pub fn values(&self) -> (entries: &Vec<ResourceEntry>)
        ensures
            entries@ == self.spec_entries(),
            is_index(entries@),
    {
        proof {
            use_type_invariant(self);
        }
        &self.entries
    }
}

/// A name under which the catalog has no talent item is not in the index,
/// whatever else the catalog holds under it, and so has no days.
pub proof fn lemma_other_kinds_left_out(raw: Seq<ResourceEntry>, name: Seq<char>)
    requires
        forall|k: int|
            0 <= k < raw.len() && (#[trigger] raw[k]).name@ == name ==> raw[k].object_type@
                != ITEM_OBJECT@ || raw[k].type_field@ != LEVEL_UP_MAT@,
    ensures
        lookup(retained(raw), name).is_none(),
        weekdays_of(retained(raw), name).is_none(),
{
    lemma_retained(raw);
    if names_entry(retained(raw), name) {
        let k = choose|k: int|
            0 <= k < raw.len() && (#[trigger] raw[k]).spec_is_talent_item() && raw[k].name@ == name;
        assert(raw[k].name@ == name);
    }
}

/// An index keeps of its own records exactly those records.
pub proof fn lemma_retained_of_index(entries: Seq<ResourceEntry>)
    requires
        is_index(entries),
    ensures
        retained(entries) == entries,
    decreases entries.len(),
{
    if entries.len() > 0 {
        let head = entries.drop_last();
        lemma_retained_of_index(head);
        assert(!names_entry(head, entries.last().name@)) by {
            if names_entry(head, entries.last().name@) {
                let i = choose|i: int| 0 <= i < head.len() && head[i].name@ == entries.last().name@;
                assert(entries[i].name@ == entries[entries.len() - 1].name@);
            }
        }
        assert(head.push(entries.last()) == entries);
    }
}

/// Builds the index of a resource catalog: of its records, the items whose
/// kind is talent level-up material, each under its name. Of several such
/// records of one name the last one is kept.
pub fn read_resources(root: ResourcesRoot) -> (index: ResourceIndex)
    ensures
        index.spec_entries() == retained(root.data@),
        is_index(index.spec_entries()),
{
    let mut index = ResourceIndex::new();
    let ResourcesRoot { data } = root;
    for entry in it: data
        invariant
            it.seq() == root.data@,
            index.spec_entries() == retained(it.seq().take(it.index() as int)),
    {
        proof {
            let k = it.index() as int;
            assert(it.seq().take(k + 1).drop_last() == it.seq().take(k));
            lemma_retained(it.seq().take(k));
            lemma_retained_push(it.seq().take(k), entry);
            assert(it.seq().take(k + 1) == it.seq().take(k).push(entry));
        }
        index = index.with_entry(entry);
    }
    proof {
        assert(root.data@.take(root.data@.len() as int) == root.data@);
        lemma_retained(root.data@);
    }
    index
}

/// Taking one more record in comes to the same whether the records before
/// it are kept first or not.
pub proof fn lemma_retained_push(raw: Seq<ResourceEntry>, entry: ResourceEntry)
    ensures
        retained(retained(raw).push(entry)) == retained(raw.push(entry)),
{
    lemma_retained(raw);
    lemma_retained_of_index(retained(raw));
    assert(raw.push(entry).drop_last() == raw);
    assert(retained(raw).push(entry).drop_last() == retained(raw));
}

/// The days on which the material called `name` can be collected: those
/// that its record in the index lists. There is no answer where the index
/// holds no such record, where the record lists no day, or where a label in
/// its list names no day.
pub fn material_name_to_day_of_week(name: &str, resources: &ResourceIndex) -> (days: Option<
    Vec<DayOfWeek>,
>)
    ensures
        match days {
            Some(found) => weekdays_of(resources.spec_entries(), name@) == Some(found@),
            None => weekdays_of(resources.spec_entries(), name@).is_none(),
        },
{
    let entry = match resources.get(name) {
        Some(entry) => entry,
        None => { return None; },
    };
    let labels = match &entry.days {
        Some(labels) => labels,
        None => { return None; },
    };
    if labels.len() == 0 {
        return None;
    }
    proof {
        let at = position_of(resources.spec_entries(), name@).unwrap();
        assert(resources.spec_entries()[at].spec_is_talent_item());
    }
    let mut days: Vec<DayOfWeek> = Vec::new();
    let mut i: usize = 0;
    while i < labels.len()
        invariant
            i <= labels.len(),
            days.len() == i,
            labels.len() > 0,
            lookup(resources.spec_entries(), name@) == Some(*entry),
            entry.spec_is_talent_item(),
            entry.days == Some(*labels),
            forall|k: int|
                0 <= k < i ==> DayOfWeek::spec_from_name(labels[k]@) == Some(#[trigger] days[k]),
        decreases labels.len() - i,
    {
        match DayOfWeek::from_name(labels[i].as_str()) {
            Some(day) => days.push(day),
            None => {
                assert(!all_days_known(labels@)) by {
                    assert(DayOfWeek::spec_from_name(labels@[i as int]@).is_none());
                }
                return None;
            },
        }
        i += 1;
    }
    assert(all_days_known(labels@)) by {
        assert forall|k: int| 0 <= k < labels.len() implies DayOfWeek::spec_from_name(
            labels@[k]@,
        ).is_some() by {
            assert(DayOfWeek::spec_from_name(labels[k]@) == Some(days[k]));
        }
    }
    assert(days@ =~= days_of(labels@));
    Some(days)
}

} // verus!

//! Cross references between two locales. Each locale has a table that gives
//! every label a number; two labels that share a number name the same thing.

use crate::catalog::{CharacterEntry, LabelId};
use crate::text::same_text;
use std::collections::HashMap;
use vstd::hash_map::StringHashMap;
use vstd::prelude::*;

verus! {

/// Some record of the table carries the number `id`.
pub open spec fn holds_id(table: Seq<LabelId>, id: u64) -> bool {
    exists|j: int| 0 <= j < table.len() && table[j].id == id
}

/// `j` is the position of the last record of the table that carries `id`.
pub open spec fn is_last_with_id(table: Seq<LabelId>, id: u64, j: int) -> bool {
    &&& 0 <= j < table.len()
    &&& table[j].id == id
    &&& forall|m: int| j < m < table.len() ==> table[m].id != id
}

/// The label that the table gives for `id`: that of the last record that
/// carries the number, so that of several records of one number the last
/// one counts.
pub open spec fn label_of_id(table: Seq<LabelId>, id: u64) -> Option<Seq<char>> {
    if holds_id(table, id) {
        Some(table[choose|j: int| is_last_with_id(table, id, j)].label@)
    } else {
        None
    }
}

/// The cross reference from the labels of table `a` to those of table `b`.
/// The records of `a` are taken front to back; each whose number occurs
/// in `b` sends its label to the label that `b` gives for the number. A
/// record whose number `b` lacks adds nothing. Where a label occurs twice in
/// `a`, the later record that adds something counts.
pub open spec fn cross_reference(a: Seq<LabelId>, b: Seq<LabelId>) -> Map<Seq<char>, Seq<char>>
    decreases a.len(),
{
    if a.len() == 0 {
        Map::empty()
    } else {
        let before = cross_reference(a.drop_last(), b);
        match label_of_id(b, a.last().id) {
            Some(label) => before.insert(a.last().label@, label),
            None => before,
        }
    }
}

/// The name of a roster record in `locale`: that of the last pair of its
/// name table that is for the locale.
pub open spec fn name_in(names: Seq<(String, String)>, locale: Seq<char>) -> Option<Seq<char>>
    decreases names.len(),
{
    if names.len() == 0 {
        None
    } else if names.last().0@ == locale {
        Some(names.last().1@)
    } else {
        name_in(names.drop_last(), locale)
    }
}

/// The cross reference that a roster holds in itself: each record sends its
/// name to its name in `locale`, where it has one.
pub open spec fn roster_names(roster: Seq<CharacterEntry>, locale: Seq<char>) -> Map<
    Seq<char>,
    Seq<char>,
>
    decreases roster.len(),
{
    if roster.len() == 0 {
        Map::empty()
    } else {
        let before = roster_names(roster.drop_last(), locale);
        match name_in(roster.last().names@, locale) {
            Some(name) => before.insert(roster.last().name@, name),
            None => before,
        }
    }
}

/// The name under which a label is shown: what the cross reference gives
/// for it, and the label itself where the cross reference gives nothing.
pub open spec fn display_name(map: Map<Seq<char>, Seq<char>>, label: Seq<char>) -> Seq<char> {
    if map.contains_key(label) {
        map[label]
    } else {
        label
    }
}

/// The last record that carries a number is well defined.
pub proof fn lemma_last_with_id(table: Seq<LabelId>, id: u64)
    requires
        holds_id(table, id),
    ensures
        exists|j: int| is_last_with_id(table, id, j),
        forall|j: int, k: int|
            is_last_with_id(table, id, j) && is_last_with_id(table, id, k) ==> j == k,
    decreases table.len(),
{
    let last = table.len() - 1;
    if table[last].id == id {
        assert(is_last_with_id(table, id, last));
    } else {
        let head = table.drop_last();
        let w = choose|j: int| 0 <= j < table.len() && table[j].id == id;
        assert(head[w].id == id);
        lemma_last_with_id(head, id);
        let j = choose|j: int| is_last_with_id(head, id, j);
        assert forall|m: int| j < m < table.len() implies table[m].id != id by {
            if m < last {
                assert(head[m].id != id);
            }
        }
        assert(is_last_with_id(table, id, j));
    }
}

/// A cross reference holds a label only by way of a shared number: some
/// record of `a` with that label and some record of `b` carry the same
/// number, and the label is sent to the label of that record of `b`.
pub proof fn lemma_cross_reference_sound(a: Seq<LabelId>, b: Seq<LabelId>, label: Seq<char>)
    requires
        cross_reference(a, b).contains_key(label),
    ensures
        exists|i: int, j: int|
            0 <= i < a.len() && 0 <= j < b.len() && a[i].label@ == label && a[i].id == b[j].id
                && cross_reference(a, b)[label] == b[j].label@,
    decreases a.len(),
{
    let head = a.drop_last();
    let last = a.len() - 1;
    if label_of_id(b, a.last().id).is_some() && a.last().label@ == label {
        lemma_last_with_id(b, a.last().id);
        let j = choose|j: int| is_last_with_id(b, a.last().id, j);
        assert(a[last].label@ == label && a[last].id == b[j].id);
    } else {
        assert(cross_reference(head, b).contains_key(label));
        lemma_cross_reference_sound(head, b, label);
        let (i, j) = choose|i: int, j: int|
            0 <= i < head.len() && 0 <= j < b.len() && head[i].label@ == label && head[i].id
                == b[j].id && cross_reference(head, b)[label] == b[j].label@;
        assert(a[i].label@ == label && a[i].id == b[j].id);
    }
}

/// A label of `a` is cross referenced exactly when one of its records
/// carries a number that occurs in `b`. So a label none of whose numbers
/// occurs in `b` has no cross reference, and is shown as it stands.
pub proof fn lemma_cross_reference_complete(a: Seq<LabelId>, b: Seq<LabelId>, label: Seq<char>)
    ensures
        cross_reference(a, b).contains_key(label) <==> exists|i: int|
            0 <= i < a.len() && a[i].label@ == label && holds_id(b, a[i].id),
        !cross_reference(a, b).contains_key(label) ==> display_name(cross_reference(a, b), label)
            == label,
    decreases a.len(),
{
    if a.len() > 0 {
        let head = a.drop_last();
        let last = a.len() - 1;
        lemma_cross_reference_complete(head, b, label);
        if cross_reference(a, b).contains_key(label) {
            if holds_id(b, a.last().id) && a.last().label@ == label {
                assert(a[last].label@ == label && holds_id(b, a[last].id));
            } else {
                let i = choose|i: int|
                    0 <= i < head.len() && head[i].label@ == label && holds_id(b, head[i].id);
                assert(a[i].label@ == label && holds_id(b, a[i].id));
            }
        }
        if exists|i: int| 0 <= i < a.len() && a[i].label@ == label && holds_id(b, a[i].id) {
            let i = choose|i: int|
                0 <= i < a.len() && a[i].label@ == label && holds_id(b, a[i].id);
            if i < last {
                assert(head[i].label@ == label && holds_id(b, head[i].id));
            }
        }
    }
}

/// Where each table has a single record and both carry the same number, the
/// label of the first is sent to the label of the second.
pub proof fn lemma_cross_reference_single(a: LabelId, b: LabelId)
    requires
        a.id == b.id,
    ensures
        cross_reference(seq![a], seq![b]) == Map::<Seq<char>, Seq<char>>::empty().insert(
            a.label@,
            b.label@,
        ),
        display_name(cross_reference(seq![a], seq![b]), a.label@) == b.label@,
{
    let ta = seq![a];
    let tb = seq![b];
    assert(tb[0].id == a.id);
    assert(holds_id(tb, a.id));
    lemma_last_with_id(tb, a.id);
    assert(ta.drop_last() == Seq::<LabelId>::empty());
    assert(cross_reference(ta.drop_last(), tb) == Map::<Seq<char>, Seq<char>>::empty());
}

/// A cross reference from the labels of one locale to those of another.
pub struct LocaleMap {
    labels: StringHashMap<String>,
}

impl View for LocaleMap {
    type V = Map<Seq<char>, Seq<char>>;

    closed spec fn view(&self) -> Map<Seq<char>, Seq<char>> {
        self.labels@.map_values(|label: String| label@)
    }
}

impl LocaleMap {
    /// The cross reference that holds nothing, under which every label is
    /// shown as it stands.
    pub fn new() -> (map: LocaleMap)
        ensures
            map@ == Map::<Seq<char>, Seq<char>>::empty(),
    {
        let map = LocaleMap { labels: StringHashMap::new() };
        assert(map@ =~= Map::<Seq<char>, Seq<char>>::empty());
        map
    }

    fn with(self, from: &str, to: &str) -> (next: LocaleMap)
        ensures
            next@ == self@.insert(from@, to@),
    {
        let LocaleMap { mut labels } = self;
        let ghost before = labels@;
        labels.insert(from.to_owned(), to.to_owned());
        let next = LocaleMap { labels };
        proof {
            let f = |label: String| label@;
            assert(next@ =~= before.map_values(f).insert(from@, to@));
        }
        next
    }

    /// Builds the cross reference from the labels of table `a` to those of
    /// table `b`, by the numbers that the two tables share.
    pub fn build(a: &Vec<LabelId>, b: &Vec<LabelId>) -> (map: LocaleMap)
        ensures
            map@ == cross_reference(a@, b@),
    {
        let mut by_id: HashMap<u64, usize> = HashMap::new();
        let mut j: usize = 0;
        while j < b.len()
            invariant
                j <= b.len(),
                forall|id: u64| #[trigger]
                    by_id@.contains_key(id) <==> holds_id(b@.take(j as int), id),
                forall|id: u64| #[trigger]
                    by_id@.contains_key(id) ==> is_last_with_id(
                        b@.take(j as int),
                        id,
                        by_id@[id] as int,
                    ),
            decreases b.len() - j,
        {
            let ghost head = b@.take(j as int);
            let ghost next = b@.take(j + 1);
            let ghost before = by_id@;
            by_id.insert(b[j].id, j);
            proof {
                assert(next.drop_last() == head);
                assert forall|id: u64| #[trigger]
                    by_id@.contains_key(id) <==> holds_id(next, id) by {
                    if id == b[j as int].id {
                        assert(next[j as int].id == id);
                    } else {
                        if before.contains_key(id) {
                            let w = choose|w: int| 0 <= w < head.len() && head[w].id == id;
                            assert(next[w].id == id);
                        }
                        if holds_id(next, id) {
                            let w = choose|w: int| 0 <= w < next.len() && next[w].id == id;
                            assert(head[w].id == id);
                        }
                    }
                }
                assert forall|id: u64| #[trigger] by_id@.contains_key(id) implies is_last_with_id(
                    next,
                    id,
                    by_id@[id] as int,
                ) by {
                    if id != b[j as int].id {
                        let w = before[id] as int;
                        assert(is_last_with_id(head, id, w));
                        assert(next[w] == head[w]);
                        assert forall|m: int| w < m < next.len() implies next[m].id != id by {
                            if m < head.len() {
                                assert(head[m].id != id);
                            }
                        }
                    }
                }
            }
            j += 1;
        }
        assert(b@.take(b.len() as int) == b@);
        let mut map = LocaleMap::new();
        let mut i: usize = 0;
        while i < a.len()
            invariant
                i <= a.len(),
                map@ == cross_reference(a@.take(i as int), b@),
                forall|id: u64| #[trigger] by_id@.contains_key(id) <==> holds_id(b@, id),
                forall|id: u64| #[trigger]
                    by_id@.contains_key(id) ==> is_last_with_id(b@, id, by_id@[id] as int),
            decreases a.len() - i,
        {
            proof {
                assert(a@.take(i + 1).drop_last() == a@.take(i as int));
            }
            match by_id.get(&a[i].id) {
                Some(at) => {
                    proof {
                        lemma_last_with_id(b@, a[i as int].id);
                    }
                    map = map.with(a[i].label.as_str(), b[*at].label.as_str());
                },
                None => {},
            }
            i += 1;
        }
        assert(a@.take(a.len() as int) == a@);
        map
    }

    /// Builds the cross reference that a roster holds in itself: from each
    /// record's name to its name in `locale`, where it has one.
    pub fn from_roster(roster: &Vec<CharacterEntry>, locale: &str) -> (map: LocaleMap)
        ensures
            map@ == roster_names(roster@, locale@),
    {
        let mut map = LocaleMap::new();
        let mut i: usize = 0;
        while i < roster.len()
            invariant
                i <= roster.len(),
                map@ == roster_names(roster@.take(i as int), locale@),
            decreases roster.len() - i,
        {
            proof {
                assert(roster@.take(i + 1).drop_last() == roster@.take(i as int));
            }
            let names = &roster[i].names;
            let mut k: usize = names.len();
            let mut found: Option<usize> = None;
            assert(names@.take(k as int) == names@);
            while k > 0 && found.is_none()
                invariant
                    k <= names.len(),
                    name_in(names@, locale@) == match found {
                        Some(at) => Some(names[at as int].1@),
                        None => name_in(names@.take(k as int), locale@),
                    },
                    found matches Some(at) ==> at < names.len(),
                decreases k, found.is_none() as int,
            {
                proof {
                    assert(names@.take(k as int).drop_last() == names@.take(k - 1));
                }
                k -= 1;
                if same_text(names[k].0.as_str(), locale) {
                    found = Some(k);
                }
            }
            match found {
                Some(at) => {
                    map = map.with(roster[i].name.as_str(), names[at].1.as_str());
                },
                None => {},
            }
            i += 1;
        }
        assert(roster@.take(roster.len() as int) == roster@);
        map
    }

    /// How many labels are cross referenced.
    pub fn len(&self) -> (n: usize)
        ensures
            n == self@.len(),
    {
        proof {
            assert(self@.dom() =~= self.labels@.dom());
        }
        self.labels.len()
    }

    /// The label to which `label` is cross referenced, if it is.
    pub fn resolve(&self, label: &str) -> (found: Option<&String>)
        ensures
            match found {
                Some(to) => self@.contains_key(label@) && self@[label@] == to@,
                None => !self@.contains_key(label@),
            },
    {
        self.labels.get(label)
    }

    /// The name under which `label` is shown: the label to which it is
    /// cross referenced, or else the label itself.
    pub fn display_name(&self, label: &str) -> (shown: String)
        ensures
            shown@ == display_name(self@, label@),
    {
        match self.resolve(label) {
            Some(to) => to.clone(),
            None => label.to_owned(),
        }
    }
}

} // verus!

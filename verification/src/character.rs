//! Characters as the views show them: the roster joined with the index of
//! talent materials, and the grouping of characters by primary material.

use crate::catalog::{CharacterEntry, ResourceEntry, TalentMaterial};
use crate::locale::{display_name, LocaleMap};
use crate::material::{
    classify, TalentLevelUpMaterial, TalentLevelUpMaterialType, TalentLevelUpMaterialView,
    MATERIAL_TYPE_COUNT,
};
use crate::resources::{
    lemma_other_kinds_left_out, material_name_to_day_of_week, retained, weekdays_of,
    ResourceIndex, ITEM_OBJECT, LEVEL_UP_MAT,
};
use crate::text::{replace_char, replace_each, same_text};
use vstd::prelude::*;

verus! {

/// The roster's name for the player's own avatar, which has no materials of
/// its own and is left out of every view.
pub const TRAVELER: &'static str = "Traveler";

/// A character with the talent materials it needs.
#[derive(Clone, Debug)]
pub struct Character {
    /// The name under which the character is shown.
    pub name: String,
    /// The materials that the character's talents need. The first one is
    /// the character's primary material.
    pub talent_materials: Vec<TalentLevelUpMaterial>,
    /// The file name of the character's picture.
    pub thumbnail: String,
}

/// What a [`Character`] holds, with text as characters.
pub struct CharacterView {
    pub name: Seq<char>,
    pub talent_materials: Seq<TalentLevelUpMaterialView>,
    pub thumbnail: Seq<char>,
}

impl View for Character {
    type V = CharacterView;

    open spec fn view(&self) -> CharacterView {
        CharacterView {
            name: self.name@,
            talent_materials: material_views(self.talent_materials@),
            thumbnail: self.thumbnail@,
        }
    }
}

/// The views of a list of materials.
pub open spec fn material_views(materials: Seq<TalentLevelUpMaterial>) -> Seq<
    TalentLevelUpMaterialView,
> {
    materials.map_values(|m: TalentLevelUpMaterial| m@)
}

/// The views of a list of characters.
pub open spec fn character_views(characters: Seq<Character>) -> Seq<CharacterView> {
    characters.map_values(|c: Character| c@)
}

impl Character {
    /// A character made of its parts.
    pub fn new(
        name: String,
        talent_materials: Vec<TalentLevelUpMaterial>,
        thumbnail: String,
    ) -> (c: Character)
        ensures
            c.name == name,
            c.talent_materials == talent_materials,
            c.thumbnail == thumbnail,
    {
        Self { name, talent_materials, thumbnail }
    }

    /// The type of the character's primary material: that of the first
    /// material it needs, if it needs any.
    pub open spec fn spec_primary_type(&self) -> Option<TalentLevelUpMaterialType> {
        if self.talent_materials.len() > 0 {
            Some(self.talent_materials[0].mat_type)
        } else {
            None
        }
    }

    /// The type of the character's primary material.
    pub fn primary_type(&self) -> (t: Option<TalentLevelUpMaterialType>)
        ensures
            t == self.spec_primary_type(),
    {
        if self.talent_materials.len() > 0 {
            Some(self.talent_materials[0].mat_type)
        } else {
            None
        }
    }
}

/// The file name of the picture of the character called `name`: the name
/// with an underscore for every blank, between a fixed head and tail.
pub open spec fn thumbnail_of(name: Seq<char>) -> Seq<char> {
    "Character_"@ + replace_each(name, ' ', "_"@) + "_Thumb.webp"@
}

/// Why a line of a character's material list is dropped.
#[derive(Clone, Copy, Debug, PartialEq, Eq, Structural)]
pub enum MaterialMiss {
    /// The line's name holds the token of no material type.
    ClassificationMiss,
    /// The index of talent materials has no record of the line's name, or
    /// the record does not tell the days.
    WeekdayResolutionMiss,
}

/// What becomes of one line of a character's material list. The line is
/// kept if its name tells a material type and the index of talent materials
/// tells its days; it then carries that type and those days. Otherwise it
/// is dropped, for the first of these two that fails.
pub open spec fn material_of(item: TalentMaterial, resources: Seq<ResourceEntry>) -> Result<
    TalentLevelUpMaterialView,
    MaterialMiss,
> {
    match classify(item.name@) {
        None => Err(MaterialMiss::ClassificationMiss),
        Some(mat_type) => match weekdays_of(resources, item.name@) {
            None => Err(MaterialMiss::WeekdayResolutionMiss),
            Some(days) => Ok(TalentLevelUpMaterialView { name: item.name@, mat_type, days }),
        },
    }
}

/// What becomes of a character's material list: the lines that are kept,
/// in their order.
pub open spec fn materials_of(items: Seq<TalentMaterial>, resources: Seq<ResourceEntry>) -> Seq<
    TalentLevelUpMaterialView,
> {
    items.filter_map(
        |item: TalentMaterial|
            match material_of(item, resources) {
                Ok(material) => Some(material),
                Err(_) => None,
            },
    )
}

/// What becomes of one record of the roster.
pub open spec fn character_of(
    entry: CharacterEntry,
    resources: Seq<ResourceEntry>,
    locale: Map<Seq<char>, Seq<char>>,
) -> CharacterView {
    CharacterView {
        name: display_name(locale, entry.name@),
        talent_materials: materials_of(entry.talent_materials@, resources),
        thumbnail: thumbnail_of(entry.name@),
    }
}

/// What becomes of the roster: one character for every record but the
/// avatar's, in the order of the roster.
pub open spec fn joined(
    roster: Seq<CharacterEntry>,
    resources: Seq<ResourceEntry>,
    locale: Map<Seq<char>, Seq<char>>,
) -> Seq<CharacterView> {
    roster.filter(|entry: CharacterEntry| entry.name@ != TRAVELER@).map_values(
        |entry: CharacterEntry| character_of(entry, resources, locale),
    )
}

/// How the materials of a list follow from those of the list without its
/// last line.
proof fn lemma_materials_of_step(items: Seq<TalentMaterial>, resources: Seq<ResourceEntry>)
    requires
        items.len() > 0,
    ensures
        materials_of(items, resources) == match material_of(items.last(), resources) {
            Ok(material) => materials_of(items.drop_last(), resources).push(material),
            Err(_) => materials_of(items.drop_last(), resources),
        },
{
    let before = materials_of(items.drop_last(), resources);
    match material_of(items.last(), resources) {
        Ok(material) => {
            assert(before + seq![material] == before.push(material));
        },
        Err(_) => {},
    }
}

/// How the characters of a roster follow from those of the roster without
/// its last record.
proof fn lemma_joined_step(
    roster: Seq<CharacterEntry>,
    resources: Seq<ResourceEntry>,
    locale: Map<Seq<char>, Seq<char>>,
)
    requires
        roster.len() > 0,
    ensures
        joined(roster, resources, locale) == if roster.last().name@ == TRAVELER@ {
            joined(roster.drop_last(), resources, locale)
        } else {
            joined(roster.drop_last(), resources, locale).push(
                character_of(roster.last(), resources, locale),
            )
        },
{
    let keep = |entry: CharacterEntry| entry.name@ != TRAVELER@;
    let make = |entry: CharacterEntry| character_of(entry, resources, locale);
    let head = roster.drop_last();
    head.lemma_filter_push(roster.last(), keep);
    assert(head.push(roster.last()) == roster);
    if keep(roster.last()) {
        assert(head.filter(keep).push(roster.last()).map_values(make) == head.filter(
            keep,
        ).map_values(make).push(make(roster.last())));
    }
}

/// Joins one line of a character's material list with the index of talent
/// materials: the line with its type and its days, or the reason why it
/// has to be dropped.
pub fn read_material(item: &TalentMaterial, resources: &ResourceIndex) -> (material: Result<
    TalentLevelUpMaterial,
    MaterialMiss,
>)
    ensures
        match material {
            Ok(m) => material_of(*item, resources.spec_entries()) == Ok::<_, MaterialMiss>(m@),
            Err(miss) => material_of(*item, resources.spec_entries()) == Err::<
                TalentLevelUpMaterialView,
                _,
            >(miss),
        },
{
    let mat_type = match TalentLevelUpMaterialType::from_full_name(item.name.as_str()) {
        Some(mat_type) => mat_type,
        None => { return Err(MaterialMiss::ClassificationMiss); },
    };
    let days = match material_name_to_day_of_week(item.name.as_str(), resources) {
        Some(days) => days,
        None => { return Err(MaterialMiss::WeekdayResolutionMiss); },
    };
    Ok(TalentLevelUpMaterial { name: item.name.clone(), mat_type, days })
}

/// A character's material list, joined with the index.
fn read_materials(items: &Vec<TalentMaterial>, resources: &ResourceIndex) -> (materials: Vec<
    TalentLevelUpMaterial,
>)
    ensures
        material_views(materials@) == materials_of(items@, resources.spec_entries()),
{
    let mut materials: Vec<TalentLevelUpMaterial> = Vec::new();
    let mut i: usize = 0;
    assert(material_views(materials@) =~= materials_of(items@.take(0), resources.spec_entries()));
    while i < items.len()
        invariant
            i <= items.len(),
            material_views(materials@) == materials_of(
                items@.take(i as int),
                resources.spec_entries(),
            ),
        decreases items.len() - i,
    {
        proof {
            assert(items@.take(i + 1).drop_last() == items@.take(i as int));
            lemma_materials_of_step(items@.take(i + 1), resources.spec_entries());
        }
        let ghost before = materials@;
        match read_material(&items[i], resources) {
            Ok(material) => {
                materials.push(material);
                assert(material_views(materials@) =~= material_views(before).push(material@));
            },
            Err(_) => {},
        }
        i += 1;
    }
    assert(items@.take(items.len() as int) == items@);
    materials
}

/// The file name of the picture of the character called `name`.
pub fn thumbnail_name(name: &str) -> (file: String)
    ensures
        file@ == thumbnail_of(name@),
{
    let mut file = "Character_".to_owned();
    let underscored = replace_char(name, ' ', "_");
    file.append(underscored.as_str());
    file.append("_Thumb.webp");
    file
}

/// Joins the roster with the index of talent materials. Every record of
/// the roster but the avatar's gives one character, in the order of the
/// roster:
/// - its name is the label to which `locale` cross references the record's
///   name, or the record's name itself where there is no cross reference;
/// - its picture is named after the record's name;
/// - its materials are the lines of the record's list, in their order,
///   without those whose name tells no material type and those that the
///   index does not hold as a talent level-up material with its days. A
///   line that is dropped takes nothing else with it.
pub fn read_character_mats(
    roster: &Vec<CharacterEntry>,
    resources: &ResourceIndex,
    locale: &LocaleMap,
) -> (characters: Vec<Character>)
    ensures
        character_views(characters@) == joined(roster@, resources.spec_entries(), locale@),
{
    let mut characters: Vec<Character> = Vec::new();
    let mut i: usize = 0;
    proof {
        let none = roster@.take(0);
        none.lemma_filter_len(|entry: CharacterEntry| entry.name@ != TRAVELER@);
        assert(character_views(characters@) =~= joined(none, resources.spec_entries(), locale@));
    }
    while i < roster.len()
        invariant
            i <= roster.len(),
            character_views(characters@) == joined(
                roster@.take(i as int),
                resources.spec_entries(),
                locale@,
            ),
        decreases roster.len() - i,
    {
        proof {
            assert(roster@.take(i + 1).drop_last() == roster@.take(i as int));
            lemma_joined_step(roster@.take(i + 1), resources.spec_entries(), locale@);
        }
        let entry = &roster[i];
        if !same_text(entry.name.as_str(), TRAVELER) {
            let name = locale.display_name(entry.name.as_str());
            let thumbnail = thumbnail_name(entry.name.as_str());
            let talent_materials = read_materials(&entry.talent_materials, resources);
            let ghost before = characters@;
            let character = Character::new(name, talent_materials, thumbnail);
            characters.push(character);
            assert(character_views(characters@) =~= character_views(before).push(character@));
        }
        i += 1;
    }
    assert(roster@.take(roster.len() as int) == roster@);
    characters
}

/// The characters whose primary material is of type `t`, in their order.
pub open spec fn members_of(characters: Seq<Character>, t: TalentLevelUpMaterialType) -> Seq<
    Character,
> {
    characters.filter(|c: Character| c.spec_primary_type() == Some(t))
}

/// How a group follows from the group of the characters without the last.
proof fn lemma_members_of_step(characters: Seq<Character>, t: TalentLevelUpMaterialType)
    requires
        characters.len() > 0,
    ensures
        members_of(characters, t) == if characters.last().spec_primary_type() == Some(t) {
            members_of(characters.drop_last(), t).push(characters.last())
        } else {
            members_of(characters.drop_last(), t)
        },
{
    let of_type = |c: Character| c.spec_primary_type() == Some(t);
    characters.drop_last().lemma_filter_push(characters.last(), of_type);
    assert(characters.drop_last().push(characters.last()) == characters);
}

/// The grouping of `characters`: every type that is some character's
/// primary type, with the characters of that primary type.
pub open spec fn grouped(characters: Seq<Character>) -> Map<
    TalentLevelUpMaterialType,
    Seq<Character>,
> {
    Map::new(
        |t: TalentLevelUpMaterialType| members_of(characters, t).len() > 0,
        |t: TalentLevelUpMaterialType| members_of(characters, t),
    )
}

/// Characters grouped by the type of their primary material.
#[derive(Debug)]
pub struct MaterialGroups {
    groups: Vec<Vec<Character>>,
}

impl View for MaterialGroups {
    type V = Map<TalentLevelUpMaterialType, Seq<Character>>;

    closed spec fn view(&self) -> Map<TalentLevelUpMaterialType, Seq<Character>> {
        Map::new(
            |t: TalentLevelUpMaterialType| self.groups[t.spec_ordinal()].len() > 0,
            |t: TalentLevelUpMaterialType| self.groups[t.spec_ordinal()]@,
        )
    }
}

impl MaterialGroups {
    #[verifier::type_invariant]
    spec fn wf(&self) -> bool {
        self.groups.len() == MATERIAL_TYPE_COUNT
    }

    /// The types that have a group, up to position `k` of the declaration
    /// order.
    spec fn keys_below(&self, k: int) -> Set<TalentLevelUpMaterialType> {
        Set::new(|t: TalentLevelUpMaterialType| t.spec_ordinal() < k && self@.contains_key(t))
    }

    /// How many types have a group.
    pub fn len(&self) -> (n: usize)
        ensures
            n == self@.len(),
            self@.dom().finite(),
    {
        proof {
            use_type_invariant(self);
        }
        let mut n: usize = 0;
        let mut k: usize = 0;
        assert(self.keys_below(0) =~= Set::<TalentLevelUpMaterialType>::empty());
        while k < MATERIAL_TYPE_COUNT
            invariant
                k <= MATERIAL_TYPE_COUNT,
                self.groups.len() == MATERIAL_TYPE_COUNT,
                n <= k,
                self.keys_below(k as int).finite(),
                n == self.keys_below(k as int).len(),
            decreases MATERIAL_TYPE_COUNT - k,
        {
            proof {
                crate::material::lemma_ordinal_round_trip();
                let t = TalentLevelUpMaterialType::spec_member(k as int);
                if self.groups[k as int].len() > 0 {
                    assert(self.keys_below(k + 1) =~= self.keys_below(k as int).insert(t));
                } else {
                    assert(self.keys_below(k + 1) =~= self.keys_below(k as int));
                }
            }
            if self.groups[k].len() > 0 {
                n += 1;
            }
            k += 1;
        }
        proof {
            assert(self.keys_below(MATERIAL_TYPE_COUNT as int) =~= self@.dom());
        }
        n
    }

    /// The characters whose primary material is of type `mat_type`, if
    /// there are any.
    pub fn get(&self, mat_type: &TalentLevelUpMaterialType) -> (group: Option<&Vec<Character>>)
        ensures
            match group {
                Some(members) => self@.contains_key(*mat_type) && members@ == self@[*mat_type]
                    && members.len() > 0,
                None => !self@.contains_key(*mat_type),
            },
    {
        proof {
            use_type_invariant(self);
        }
        let group = &self.groups[mat_type.ordinal()];
        if group.len() > 0 {
            Some(group)
        } else {
            None
        }
    }
}

/// Groups characters by the type of their primary material, which is the
/// first material of their list. A character is put under that type and no
/// other, behind the characters that came before it; a character without
/// materials is put nowhere.
pub fn group_by_material(characters: Vec<Character>) -> (groups: MaterialGroups)
    ensures
        groups@ == grouped(characters@),
{
    let mut lists: Vec<Vec<Character>> = Vec::new();
    let mut k: usize = 0;
    while k < MATERIAL_TYPE_COUNT
        invariant
            k <= MATERIAL_TYPE_COUNT,
            lists.len() == k,
            forall|j: int| 0 <= j < k ==> (#[trigger] lists[j])@ == Seq::<Character>::empty(),
        decreases MATERIAL_TYPE_COUNT - k,
    {
        lists.push(Vec::new());
        k += 1;
    }
    proof {
        assert forall|t: TalentLevelUpMaterialType| (#[trigger] lists[t.spec_ordinal()])@
            == members_of(characters@.take(0), t) by {
            characters@.take(0).lemma_filter_len(
                |c: Character| c.spec_primary_type() == Some(t),
            );
        }
    }
    for character in it: characters
        invariant
            it.seq() == characters@,
            lists.len() == MATERIAL_TYPE_COUNT,
            forall|t: TalentLevelUpMaterialType| (#[trigger] lists[t.spec_ordinal()])@ == members_of(
                it.seq().take(it.index() as int),
                t,
            ),
    {
        proof {
            let i = it.index() as int;
            assert(it.seq().take(i + 1).drop_last() == it.seq().take(i));
            assert forall|u: TalentLevelUpMaterialType| true implies #[trigger] members_of(
                it.seq().take(i + 1),
                u,
            ) == if character.spec_primary_type() == Some(u) {
                members_of(it.seq().take(i), u).push(character)
            } else {
                members_of(it.seq().take(i), u)
            } by {
                lemma_members_of_step(it.seq().take(i + 1), u);
            }
        }
        match character.primary_type() {
            Some(t) => {
                let ghost before = lists@;
                lists[t.ordinal()].push(character);
                proof {
                    assert forall|u: TalentLevelUpMaterialType|
                        (#[trigger] lists[u.spec_ordinal()])@ == members_of(
                            it.seq().take(it.index() + 1),
                            u,
                        ) by {
                        if u != t {
                            assert(lists[u.spec_ordinal()] == before[u.spec_ordinal()]);
                        }
                    }
                }
            },
            None => {},
        }
    }
    let groups = MaterialGroups { groups: lists };
    proof {
        assert(characters@.take(characters@.len() as int) == characters@);
        assert(groups@ =~= grouped(characters@));
    }
    groups
}

/// Joining a list in two parts comes to the same as joining it whole.
pub proof fn lemma_materials_of_concat(
    front: Seq<TalentMaterial>,
    back: Seq<TalentMaterial>,
    resources: Seq<ResourceEntry>,
)
    ensures
        materials_of(front + back, resources) == materials_of(front, resources) + materials_of(
            back,
            resources,
        ),
    decreases back.len(),
{
    if back.len() == 0 {
        assert(front + back == front);
        assert(materials_of(front, resources) + Seq::<TalentLevelUpMaterialView>::empty()
            == materials_of(front, resources));
    } else {
        lemma_materials_of_concat(front, back.drop_last(), resources);
        assert((front + back).drop_last() == front + back.drop_last());
        assert((front + back).last() == back.last());
        lemma_materials_of_step(front + back, resources);
        lemma_materials_of_step(back, resources);
        match material_of(back.last(), resources) {
            Ok(material) => {
                assert((materials_of(front, resources) + materials_of(
                    back.drop_last(),
                    resources,
                )).push(material) == materials_of(front, resources) + materials_of(
                    back.drop_last(),
                    resources,
                ).push(material));
            },
            Err(_) => {},
        }
    }
}

/// A line that is dropped leaves no trace: the character comes out as if
/// the line had never been in its list. Its name, its picture and its other
/// materials are what they would be without the line.
pub proof fn lemma_dropped_line_leaves_no_trace(
    entry: CharacterEntry,
    at: int,
    resources: Seq<ResourceEntry>,
    locale: Map<Seq<char>, Seq<char>>,
)
    requires
        0 <= at < entry.talent_materials.len(),
        material_of(entry.talent_materials[at], resources) is Err,
    ensures
        materials_of(entry.talent_materials@, resources) == materials_of(
            entry.talent_materials@.remove(at),
            resources,
        ),
        character_of(entry, resources, locale).name == display_name(locale, entry.name@),
        character_of(entry, resources, locale).thumbnail == thumbnail_of(entry.name@),
{
    let items = entry.talent_materials@;
    let front = items.take(at);
    let back = items.skip(at + 1);
    assert(items == front.push(items[at]) + back);
    assert(items.remove(at) == front + back);
    lemma_materials_of_concat(front.push(items[at]), back, resources);
    lemma_materials_of_concat(front, back, resources);
    assert(front.push(items[at]).drop_last() == front);
    lemma_materials_of_step(front.push(items[at]), resources);
}

/// A line whose name the resource catalog gives to no talent level-up
/// material is dropped, whatever else the catalog holds under that name.
pub proof fn lemma_other_kind_is_dropped(item: TalentMaterial, raw: Seq<ResourceEntry>)
    requires
        forall|k: int|
            0 <= k < raw.len() && (#[trigger] raw[k]).name@ == item.name@ ==> raw[k].object_type@
                != ITEM_OBJECT@ || raw[k].type_field@ != LEVEL_UP_MAT@,
    ensures
        material_of(item, retained(raw)) is Err,
{
    lemma_other_kinds_left_out(raw, item.name@);
}

/// Every material of a joined list comes from a line of the list: it has
/// the line's name, the type that the name tells, and the days that the
/// index tells, of which there is at least one. The materials stand in the
/// order of their lines.
pub proof fn lemma_materials_come_from_lines(
    items: Seq<TalentMaterial>,
    resources: Seq<ResourceEntry>,
)
    ensures
        materials_of(items, resources).len() <= items.len(),
        forall|k: int|
            0 <= k < materials_of(items, resources).len() ==> {
                let m = #[trigger] materials_of(items, resources)[k];
                &&& classify(m.name) == Some(m.mat_type)
                &&& weekdays_of(resources, m.name) == Some(m.days)
                &&& m.days.len() > 0
                &&& exists|i: int|
                    k <= i < items.len() && material_of(items[i], resources) == Ok::<
                        _,
                        MaterialMiss,
                    >(m)
            },
    decreases items.len(),
{
    if items.len() > 0 {
        let head = items.drop_last();
        lemma_materials_come_from_lines(head, resources);
        lemma_materials_of_step(items, resources);
        let all = materials_of(items, resources);
        let before = materials_of(head, resources);
        assert forall|k: int| 0 <= k < all.len() implies {
            let m = #[trigger] all[k];
            &&& classify(m.name) == Some(m.mat_type)
            &&& weekdays_of(resources, m.name) == Some(m.days)
            &&& m.days.len() > 0
            &&& exists|i: int|
                k <= i < items.len() && material_of(items[i], resources) == Ok::<_, MaterialMiss>(m)
        } by {
            let m = all[k];
            if k < before.len() {
                assert(m == before[k]);
                let i = choose|i: int|
                    k <= i < head.len() && material_of(head[i], resources) == Ok::<
                        _,
                        MaterialMiss,
                    >(m);
                assert(items[i] == head[i]);
            } else {
                assert(material_of(items[items.len() - 1], resources) == Ok::<_, MaterialMiss>(m));
            }
        }
    }
}

/// A group holds characters of its own type only, in the order in which
/// they came; in particular it holds no character without materials.
pub proof fn lemma_members_belong(characters: Seq<Character>, t: TalentLevelUpMaterialType)
    ensures
        members_of(characters, t).len() <= characters.len(),
        forall|k: int|
            0 <= k < members_of(characters, t).len() ==> {
                let c = #[trigger] members_of(characters, t)[k];
                &&& c.talent_materials.len() > 0
                &&& c.talent_materials[0].mat_type == t
                &&& exists|i: int| k <= i < characters.len() && characters[i] == c
            },
    decreases characters.len(),
{
    if characters.len() > 0 {
        let head = characters.drop_last();
        lemma_members_belong(head, t);
        lemma_members_of_step(characters, t);
        let all = members_of(characters, t);
        let before = members_of(head, t);
        assert forall|k: int| 0 <= k < all.len() implies {
            let c = #[trigger] all[k];
            &&& c.talent_materials.len() > 0
            &&& c.talent_materials[0].mat_type == t
            &&& exists|i: int| k <= i < characters.len() && characters[i] == c
        } by {
            let c = all[k];
            if k < before.len() {
                assert(c == before[k]);
                let i = choose|i: int| k <= i < head.len() && head[i] == c;
                assert(characters[i] == head[i]);
            } else {
                assert(characters[characters.len() - 1] == c);
            }
        }
    }
}

/// Every character that has materials stands in the group of its primary
/// type, and a character without materials stands in no group.
pub proof fn lemma_every_character_placed(characters: Seq<Character>, i: int)
    requires
        0 <= i < characters.len(),
    ensures
        match characters[i].spec_primary_type() {
            Some(t) => members_of(characters, t).contains(characters[i]) && grouped(
                characters,
            ).contains_key(t),
            None => forall|t: TalentLevelUpMaterialType|
                !members_of(characters, t).contains(characters[i]),
        },
    decreases characters.len(),
{
    let c = characters[i];
    match c.spec_primary_type() {
        Some(t) => {
            let head = characters.drop_last();
            lemma_members_of_step(characters, t);
            if i == characters.len() - 1 {
                assert(members_of(characters, t).last() == c);
            } else {
                assert(head[i] == c);
                lemma_every_character_placed(head, i);
                let k = choose|k: int|
                    0 <= k < members_of(head, t).len() && members_of(head, t)[k] == c;
                assert(members_of(characters, t)[k] == c);
            }
        },
        None => {
            assert forall|t: TalentLevelUpMaterialType| !members_of(characters, t).contains(c) by {
                lemma_members_belong(characters, t);
                if members_of(characters, t).contains(c) {
                    let k = choose|k: int|
                        0 <= k < members_of(characters, t).len() && members_of(characters, t)[k]
                            == c;
                    assert(members_of(characters, t)[k].talent_materials.len() > 0);
                }
            }
        },
    }
}

/// A character stands under no key but its primary type: where the
/// grouping holds it under `t`, its first material is of type `t`.
pub proof fn lemma_grouped_by_primary(
    characters: Seq<Character>,
    t: TalentLevelUpMaterialType,
    k: int,
)
    requires
        grouped(characters).contains_key(t),
        0 <= k < grouped(characters)[t].len(),
    ensures
        grouped(characters)[t][k].spec_primary_type() == Some(t),
        characters.contains(grouped(characters)[t][k]),
{
    lemma_members_belong(characters, t);
    let c = members_of(characters, t)[k];
    let i = choose|i: int| k <= i < characters.len() && characters[i] == c;
    assert(characters[i] == c);
}

} // verus!

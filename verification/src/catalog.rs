//! The raw records of the catalogs, field for field as the catalogs hold
//! them. Nothing here is checked or normalised yet.

use vstd::prelude::*;

verus! {

/// The resource catalog as a whole.
#[derive(Clone, Debug, Default, PartialEq)]
pub struct ResourcesRoot {
    pub data: Vec<ResourceEntry>,
}

/// One record of the resource catalog: an item, a domain, or anything else
/// the game hands out.
#[derive(Clone, Debug, Default, PartialEq)]
pub struct ResourceEntry {
    pub object_type: String,
    pub name: String,
    pub type_field: String,
    pub rarity: Option<i64>,
    pub thumbnail: String,
    pub link: String,
    pub category: Option<String>,
    pub points: Option<i64>,
    pub group: Option<String>,
    pub region: Option<String>,
    pub source: Vec<String>,
    pub domain_level: Option<i64>,
    /// The English names of the days on which the resource can be had.
    pub days: Option<Vec<String>>,
    pub group_type: Option<String>,
}

/// One line of a character's list of talent materials.
#[derive(Clone, Debug, Default, PartialEq)]
pub struct TalentMaterial {
    pub name: String,
}

/// One record of the character roster.
#[derive(Clone, Debug, Default, PartialEq)]
pub struct CharacterEntry {
    /// The character's English name, by which the catalogs refer to it.
    pub name: String,
    /// The character's name in other locales, as pairs of locale and name.
    pub names: Vec<(String, String)>,
    pub thumbnail: String,
    /// The materials that the character's talents need, the primary one
    /// first.
    pub talent_materials: Vec<TalentMaterial>,
}

/// One record of the word catalog: an English phrase and, where there is
/// one, its translation.
#[derive(Clone, Debug, Default, PartialEq)]
pub struct WordEntry {
    pub en: String,
    pub ja: Option<String>,
}

/// One record of a locale's table of identifiers: a label in that locale
/// and the number that identifies what it names in every locale.
#[derive(Clone, Debug, Default, PartialEq)]
pub struct LabelId {
    pub label: String,
    pub id: u64,
}

} // verus!

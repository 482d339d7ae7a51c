//! Which talent materials each character needs, and on which days of the
//! week they can be collected.
//!
//! The library joins a handful of catalogs that are kept apart: the
//! character roster, the resource catalog, the word catalog, and the tables
//! that give every label a number. It reads no file and keeps no state:
//! each function takes the catalogs it needs and gives back a fresh value.

pub mod catalog;
pub mod character;
pub mod day;
pub mod locale;
pub mod material;
pub mod relevant;
pub mod resources;
pub mod schedule;
pub mod text;
pub mod tokens;
pub mod translation;

pub use catalog::{CharacterEntry, LabelId, ResourceEntry, ResourcesRoot, TalentMaterial, WordEntry};
pub use character::{
    group_by_material, read_character_mats, read_material, thumbnail_name, Character,
    MaterialGroups, MaterialMiss,
};
pub use day::DayOfWeek;
pub use locale::LocaleMap;
pub use material::{TalentLevelUpMaterial, TalentLevelUpMaterialType};
pub use relevant::{relevant_days, RelevantDay};
pub use resources::{material_name_to_day_of_week, read_resources, ResourceIndex};
pub use schedule::{day_to_mat_type, fixed_day_to_mat_type, Schedule, ScheduleDerivationError};
pub use translation::{
    extract_str_in_ja_quotes, mat_type_to_name, read_words, TranslationError, WordTable,
};

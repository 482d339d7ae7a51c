use weekday_materials::TalentLevelUpMaterialType::{Freedom, Gold, Justice};
use weekday_materials::{
    group_by_material, read_character_mats, read_material, read_resources, thumbnail_name,
    Character, CharacterEntry, DayOfWeek, LabelId, LocaleMap, MaterialMiss, ResourceEntry,
    ResourceIndex, ResourcesRoot, TalentLevelUpMaterial, TalentLevelUpMaterialType,
    TalentMaterial,
};

fn resource(name: &str, kind: &str, days: Option<&[&str]>) -> ResourceEntry {
    ResourceEntry {
        object_type: "item".to_string(),
        name: name.to_string(),
        type_field: kind.to_string(),
        days: days.map(|days| days.iter().map(|day| day.to_string()).collect()),
        ..ResourceEntry::default()
    }
}

fn resources() -> ResourceIndex {
    let talent = "Talent Level-Up Material";
    read_resources(ResourcesRoot {
        data: vec![
            resource("Teachings of Justice", talent, Some(&["Tuesday", "Friday", "Sunday"])),
            resource("Guide to Justice", talent, Some(&["Tuesday", "Friday", "Sunday"])),
            resource("Teachings of Freedom", talent, Some(&["Monday", "Thursday", "Sunday"])),
            resource("Teachings of Gold", talent, None),
            resource("Teachings of Light", talent, Some(&["Lightday"])),
            resource("Teachings of Silver", talent, Some(&["Monday"])),
            resource("Justice Ore", "Forging Ore", Some(&["Monday"])),
            resource("Crown of Insight", talent, Some(&["Sunday"])),
        ],
    })
}

fn entry(name: &str, materials: &[&str]) -> CharacterEntry {
    CharacterEntry {
        name: name.to_string(),
        names: Vec::new(),
        thumbnail: format!("{}.png", name),
        talent_materials: materials
            .iter()
            .map(|material| TalentMaterial { name: material.to_string() })
            .collect(),
    }
}

fn material(name: &str, mat_type: TalentLevelUpMaterialType) -> TalentLevelUpMaterial {
    TalentLevelUpMaterial { name: name.to_string(), mat_type, days: vec![DayOfWeek::Sunday] }
}

fn character(name: &str, types: &[TalentLevelUpMaterialType]) -> Character {
    Character::new(
        name.to_string(),
        types.iter().map(|t| material(&format!("Teachings of {}", t.as_str()), *t)).collect(),
        thumbnail_name(name),
    )
}

fn names(characters: &[Character]) -> Vec<&str> {
    characters.iter().map(|character| character.name.as_str()).collect()
}

#[test]
fn character_new_keeps_its_parts() {
    let c = Character::new(
        "フリーナ".to_string(),
        vec![material("Teachings of Justice", TalentLevelUpMaterialType::Justice)],
        "Character_Furina_Thumb.webp".to_string(),
    );
    assert_eq!(c.name, "フリーナ");
    assert_eq!(c.thumbnail, "Character_Furina_Thumb.webp");
    assert_eq!(c.talent_materials.len(), 1);
    assert_eq!(c.talent_materials[0].name, "Teachings of Justice");
    assert_eq!(c.primary_type(), Some(TalentLevelUpMaterialType::Justice));
}

#[test]
fn thumbnail_names() {
    assert_eq!(thumbnail_name("Furina"), "Character_Furina_Thumb.webp");
    assert_eq!(thumbnail_name("Hu Tao"), "Character_Hu_Tao_Thumb.webp");
    assert_eq!(thumbnail_name("Kamisato Ayaka"), "Character_Kamisato_Ayaka_Thumb.webp");
    assert_eq!(thumbnail_name("Raiden  Shogun"), "Character_Raiden__Shogun_Thumb.webp");
    assert_eq!(thumbnail_name(""), "Character__Thumb.webp");
}

#[test]
fn join_one_character() {
    let roster = vec![entry("Furina", &["Teachings of Justice", "Guide to Justice"])];
    let characters = read_character_mats(&roster, &resources(), &LocaleMap::new());
    assert_eq!(characters.len(), 1);
    let furina = &characters[0];
    assert_eq!(furina.name, "Furina");
    assert_eq!(furina.thumbnail, "Character_Furina_Thumb.webp");
    assert_eq!(furina.talent_materials.len(), 2);
    assert_eq!(furina.talent_materials[0].name, "Teachings of Justice");
    assert_eq!(furina.talent_materials[0].mat_type, TalentLevelUpMaterialType::Justice);
    assert_eq!(
        furina.talent_materials[0].days,
        vec![DayOfWeek::Tuesday, DayOfWeek::Friday, DayOfWeek::Sunday]
    );
    assert_eq!(furina.talent_materials[1].name, "Guide to Justice");
}

#[test]
fn join_drops_item_of_another_kind() {
    let with = vec![entry("Furina", &["Teachings of Justice", "Justice Ore", "Guide to Justice"])];
    let without = vec![entry("Furina", &["Teachings of Justice", "Guide to Justice"])];
    let joined = read_character_mats(&with, &resources(), &LocaleMap::new());
    let plain = read_character_mats(&without, &resources(), &LocaleMap::new());
    assert_eq!(joined.len(), 1);
    let kept: Vec<&str> =
        joined[0].talent_materials.iter().map(|material| material.name.as_str()).collect();
    assert_eq!(kept, vec!["Teachings of Justice", "Guide to Justice"]);
    assert_eq!(joined[0].name, plain[0].name);
    assert_eq!(joined[0].thumbnail, plain[0].thumbnail);
    assert_eq!(joined[0].talent_materials.len(), plain[0].talent_materials.len());
    for (one, other) in joined[0].talent_materials.iter().zip(plain[0].talent_materials.iter()) {
        assert_eq!(one.name, other.name);
        assert_eq!(one.mat_type, other.mat_type);
        assert_eq!(one.days, other.days);
    }
}

#[test]
fn join_drops_each_kind_of_miss() {
    let roster = vec![entry(
        "Furina",
        &[
            "Crown of Insight",
            "Teachings of Gold",
            "Teachings of Light",
            "Teachings of Silver",
            "Teachings of Equity",
            "Teachings of Freedom",
        ],
    )];
    let characters = read_character_mats(&roster, &resources(), &LocaleMap::new());
    assert_eq!(characters.len(), 1);
    assert_eq!(characters[0].talent_materials.len(), 1);
    assert_eq!(characters[0].talent_materials[0].name, "Teachings of Freedom");
    assert_eq!(characters[0].primary_type(), Some(TalentLevelUpMaterialType::Freedom));
}

#[test]
fn join_keeps_character_without_materials() {
    let roster = vec![entry("Aloy", &[]), entry("Skirk", &["Teachings of Silver"])];
    let characters = read_character_mats(&roster, &resources(), &LocaleMap::new());
    assert_eq!(names(&characters), vec!["Aloy", "Skirk"]);
    assert!(characters[0].talent_materials.is_empty());
    assert!(characters[1].talent_materials.is_empty());
    assert_eq!(characters[0].primary_type(), None);
}

#[test]
fn join_leaves_out_the_traveler() {
    let roster = vec![
        entry("Traveler", &["Teachings of Freedom"]),
        entry("Furina", &["Teachings of Justice"]),
        entry("Traveler", &[]),
        entry("Traveler (Anemo)", &["Teachings of Freedom"]),
        entry("traveler", &[]),
    ];
    let characters = read_character_mats(&roster, &resources(), &LocaleMap::new());
    assert_eq!(names(&characters), vec!["Furina", "Traveler (Anemo)", "traveler"]);
    assert!(read_character_mats(&Vec::new(), &resources(), &LocaleMap::new()).is_empty());
}

#[test]
fn join_shows_cross_referenced_names() {
    let roster = vec![entry("Furina", &[]), entry("Hu Tao", &[]), entry("Aloy", &[])];
    let id = |label: &str, id: u64| LabelId { label: label.to_string(), id };
    let locale = LocaleMap::build(
        &vec![id("Furina", 89), id("Hu Tao", 46), id("Aloy", 62)],
        &vec![id("胡桃", 46), id("フリーナ", 89)],
    );
    let characters = read_character_mats(&roster, &resources(), &locale);
    assert_eq!(names(&characters), vec!["フリーナ", "胡桃", "Aloy"]);
    assert_eq!(characters[1].thumbnail, "Character_Hu_Tao_Thumb.webp");
}

#[test]
fn read_material_tells_the_miss() {
    let index = resources();
    let line = |name: &str| TalentMaterial { name: name.to_string() };
    let miss = |name: &str| read_material(&line(name), &index).err();
    assert_eq!(miss("Crown of Insight"), Some(MaterialMiss::ClassificationMiss));
    assert_eq!(miss("Mora"), Some(MaterialMiss::ClassificationMiss));
    assert_eq!(miss("Teachings of Equity"), Some(MaterialMiss::WeekdayResolutionMiss));
    assert_eq!(miss("Teachings of Gold"), Some(MaterialMiss::WeekdayResolutionMiss));
    assert_eq!(miss("Teachings of Light"), Some(MaterialMiss::WeekdayResolutionMiss));
    assert_eq!(miss("Justice Ore"), Some(MaterialMiss::WeekdayResolutionMiss));
    assert_eq!(miss("Teachings of Silver"), Some(MaterialMiss::ClassificationMiss));
    let kept = read_material(&line("Guide to Justice"), &index).unwrap();
    assert_eq!(kept.name, "Guide to Justice");
    assert_eq!(kept.mat_type, TalentLevelUpMaterialType::Justice);
    assert_eq!(kept.days, vec![DayOfWeek::Tuesday, DayOfWeek::Friday, DayOfWeek::Sunday]);
}

#[test]
fn group_by_first_material_only() {
    let groups = group_by_material(vec![
        character("A", &[Justice, Freedom]),
        character("B", &[Freedom, Justice]),
        character("C", &[]),
        character("D", &[Justice]),
        character("E", &[Freedom, Freedom, Gold]),
    ]);
    assert_eq!(groups.len(), 2);
    assert_eq!(names(groups.get(&Justice).unwrap()), vec!["A", "D"]);
    assert_eq!(names(groups.get(&Freedom).unwrap()), vec!["B", "E"]);
    assert!(groups.get(&Gold).is_none());
    for member in TalentLevelUpMaterialType::all() {
        if let Some(group) = groups.get(&member) {
            assert!(!group.is_empty());
            for character in group {
                assert_eq!(character.talent_materials[0].mat_type, member);
                assert_ne!(character.name, "C");
            }
        }
    }
}

#[test]
fn group_nothing() {
    let none = group_by_material(Vec::new());
    assert_eq!(none.len(), 0);
    let idle = group_by_material(vec![character("C", &[]), character("F", &[])]);
    assert_eq!(idle.len(), 0);
    for member in TalentLevelUpMaterialType::all() {
        assert!(none.get(&member).is_none());
        assert!(idle.get(&member).is_none());
    }
}

#[test]
fn group_every_type() {
    let all = TalentLevelUpMaterialType::all();
    let characters: Vec<Character> =
        all.iter().rev().map(|member| character(member.as_str(), &[*member])).collect();
    let groups = group_by_material(characters);
    assert_eq!(groups.len(), 18);
    for member in all {
        assert_eq!(names(groups.get(&member).unwrap()), vec![member.as_str()]);
    }
}

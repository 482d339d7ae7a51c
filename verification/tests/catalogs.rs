use weekday_materials::{
    day_to_mat_type, group_by_material, mat_type_to_name, read_character_mats, read_resources,
    read_words, CharacterEntry, DayOfWeek, LocaleMap, ResourceEntry, ResourceIndex, ResourcesRoot,
    TalentLevelUpMaterialType, TalentMaterial, WordEntry, WordTable,
};

fn resource(object_type: &str, name: &str, kind: &str, days: Option<&[&str]>) -> ResourceEntry {
    ResourceEntry {
        object_type: object_type.to_string(),
        name: name.to_string(),
        type_field: kind.to_string(),
        thumbnail: format!("Item_{}.png", name.replace(' ', "_")),
        link: format!("/wiki/{}", name.replace(' ', "_")),
        days: days.map(|days| days.iter().map(|day| day.to_string()).collect()),
        ..ResourceEntry::default()
    }
}

fn pair_days(position: usize) -> [&'static str; 3] {
    match position % 3 {
        0 => ["Monday", "Thursday", "Sunday"],
        1 => ["Tuesday", "Friday", "Sunday"],
        _ => ["Wednesday", "Saturday", "Sunday"],
    }
}

fn sample_resources() -> ResourceIndex {
    let tokens = [
        "Freedom", "Resistance", "Ballad", "Prosperity", "Diligence", "Gold", "Transience",
        "Elegance", "Light", "Admonition", "Ingenuity", "Praxis", "Equity", "Justice", "Order",
        "Contention", "Kindling", "Conflict",
    ];
    let mut data = Vec::new();
    data.push(resource("item", "Mora", "Common Currency", None));
    for (position, token) in tokens.iter().enumerate() {
        let days = pair_days(position);
        for tier in ["Teachings of", "Guide to", "Philosophies of"] {
            let name = format!("{} {}", tier, token);
            data.push(resource("item", &name, "Talent Level-Up Material", Some(&days)));
        }
    }
    data.push(resource("item", "Iron Chunk", "Forging Ore", None));
    data.push(resource("domain", "Pale Forgotten Glory", "Talent Level-Up Material", None));
    read_resources(ResourcesRoot { data })
}

fn roster_entry(name: &str, jp: Option<&str>, materials: &[&str]) -> CharacterEntry {
    let mut names = vec![("EN".to_string(), name.to_string())];
    if let Some(jp) = jp {
        names.push(("JP".to_string(), jp.to_string()));
    }
    CharacterEntry {
        name: name.to_string(),
        names,
        thumbnail: format!("/images/{}.png", name),
        talent_materials: materials
            .iter()
            .map(|material| TalentMaterial { name: material.to_string() })
            .collect(),
    }
}

fn sample_roster() -> Vec<CharacterEntry> {
    vec![
        roster_entry(
            "Furina",
            Some("フリーナ"),
            &["Teachings of Justice", "Guide to Justice", "Philosophies of Justice", "Mora"],
        ),
        roster_entry(
            "Traveler",
            Some("旅人"),
            &["Teachings of Freedom", "Teachings of Resistance"],
        ),
        roster_entry(
            "Charlotte",
            Some("シャルロット"),
            &["Teachings of Justice", "Guide to Justice", "Philosophies of Justice"],
        ),
        roster_entry(
            "Diluc",
            Some("ディルック"),
            &["Teachings of Resistance", "Guide to Resistance", "Philosophies of Resistance"],
        ),
        roster_entry(
            "Hu Tao",
            Some("胡桃"),
            &["Teachings of Diligence", "Guide to Diligence", "Philosophies of Diligence"],
        ),
        roster_entry("Aloy", None, &[]),
    ]
}

fn sample_words() -> WordTable {
    read_words(vec![
        WordEntry { en: "Mora".to_string(), ja: Some("モラ".to_string()) },
        WordEntry {
            en: "Teachings of Justice".to_string(),
            ja: Some("「正義」の教え".to_string()),
        },
        WordEntry {
            en: "Teachings of Freedom".to_string(),
            ja: Some("「自由」の教え".to_string()),
        },
        WordEntry { en: "Teachings of Order".to_string(), ja: None },
    ])
}

#[test]
fn test_read_resources() {
    let resources = sample_resources();
    assert!(resources.len() >= 1);
    for resource in resources.values() {
        assert_eq!(resource.type_field, "Talent Level-Up Material");
    }
}

#[test]
fn test_read_character_mats() {
    let roster = sample_roster();
    let locale = LocaleMap::from_roster(&roster, "JP");
    let characters = read_character_mats(&roster, &sample_resources(), &locale);
    assert!(characters.len() >= 1);
    let furina = characters
        .iter()
        .find(|character| character.name == "フリーナ")
        .unwrap();
    assert!(furina.talent_materials.len() >= 1);

    let material = &furina.talent_materials[0];
    assert_eq!(material.mat_type, TalentLevelUpMaterialType::Justice);
}

#[test]
fn test_group_by_material() {
    let roster = sample_roster();
    let locale = LocaleMap::from_roster(&roster, "JP");
    let characters = read_character_mats(&roster, &sample_resources(), &locale);
    let group = group_by_material(characters);
    assert!(group.len() >= 1);

    let mat_type = TalentLevelUpMaterialType::Justice;
    let characters = group.get(&mat_type).unwrap();
    assert!(characters.len() > 1);
}

#[test]
fn test_read_words() {
    let words = sample_words();
    assert!(words.len() >= 1);
}

#[test]
fn test_mat_type_to_name() {
    let justice = mat_type_to_name(TalentLevelUpMaterialType::Justice, &sample_words()).unwrap();
    assert_eq!("正義", justice);
}

#[test]
fn test_day_to_mat_type() {
    let day_to_mat = day_to_mat_type(&sample_resources()).unwrap();
    assert!(day_to_mat.len() >= 1);

    assert!(day_to_mat.get(&DayOfWeek::Monday).unwrap().len() >= 1);
    assert!(day_to_mat.get(&DayOfWeek::Tuesday).unwrap().len() >= 1);
    assert!(day_to_mat.get(&DayOfWeek::Wednesday).unwrap().len() >= 1);
    assert!(day_to_mat.get(&DayOfWeek::Thursday).unwrap().len() >= 1);
    assert!(day_to_mat.get(&DayOfWeek::Friday).unwrap().len() >= 1);
    assert!(day_to_mat.get(&DayOfWeek::Saturday).unwrap().len() >= 1);
    assert!(day_to_mat.get(&DayOfWeek::Sunday).unwrap().len() >= 1);

    let materials = day_to_mat.get(&DayOfWeek::Monday).unwrap();

    let found = materials
        .iter()
        .find(|mat_type| *mat_type == &TalentLevelUpMaterialType::Contention);

    assert!(found.is_some());
}

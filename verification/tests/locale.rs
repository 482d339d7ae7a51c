use weekday_materials::{CharacterEntry, LabelId, LocaleMap};

fn id(label: &str, id: u64) -> LabelId {
    LabelId { label: label.to_string(), id }
}

#[test]
fn cross_reference_diluc() {
    let map = LocaleMap::build(&vec![id("Diluc", 1)], &vec![id("ディルック", 1)]);
    assert_eq!(map.len(), 1);
    assert_eq!(map.resolve("Diluc"), Some(&"ディルック".to_string()));
    assert_eq!(map.display_name("Diluc"), "ディルック");
}

#[test]
fn cross_reference_without_match() {
    let map = LocaleMap::build(&vec![id("Diluc", 1)], &vec![id("ジン", 2)]);
    assert_eq!(map.len(), 0);
    assert_eq!(map.resolve("Diluc"), None);
    assert_eq!(map.display_name("Diluc"), "Diluc");
}

#[test]
fn cross_reference_unknown_label() {
    let map = LocaleMap::build(&vec![id("Diluc", 1)], &vec![id("ディルック", 1)]);
    assert_eq!(map.resolve("Jean"), None);
    assert_eq!(map.resolve("ディルック"), None);
    assert_eq!(map.display_name("Jean"), "Jean");
}

#[test]
fn cross_reference_empty_tables() {
    let none: Vec<LabelId> = Vec::new();
    assert_eq!(LocaleMap::build(&none, &none).len(), 0);
    assert_eq!(LocaleMap::build(&vec![id("Diluc", 1)], &none).len(), 0);
    assert_eq!(LocaleMap::build(&none, &vec![id("ディルック", 1)]).len(), 0);
    assert_eq!(LocaleMap::new().display_name("Diluc"), "Diluc");
}

#[test]
fn cross_reference_many() {
    let a = vec![id("Diluc", 1), id("Jean", 2), id("Hu Tao", 7), id("Aloy", 9)];
    let b = vec![id("胡桃", 7), id("ジン", 2), id("ディルック", 1), id("綾華", 5)];
    let map = LocaleMap::build(&a, &b);
    assert_eq!(map.len(), 3);
    assert_eq!(map.display_name("Diluc"), "ディルック");
    assert_eq!(map.display_name("Jean"), "ジン");
    assert_eq!(map.display_name("Hu Tao"), "胡桃");
    assert_eq!(map.display_name("Aloy"), "Aloy");
}

#[test]
fn cross_reference_last_record_of_a_number_counts() {
    let map = LocaleMap::build(
        &vec![id("Diluc", 1)],
        &vec![id("ディルック(旧)", 1), id("ジン", 2), id("ディルック", 1)],
    );
    assert_eq!(map.display_name("Diluc"), "ディルック");
}

#[test]
fn cross_reference_two_labels_of_one_number() {
    let map = LocaleMap::build(&vec![id("Diluc", 1), id("Dawn Winery Master", 1)], &vec![id("ディルック", 1)]);
    assert_eq!(map.len(), 2);
    assert_eq!(map.display_name("Diluc"), "ディルック");
    assert_eq!(map.display_name("Dawn Winery Master"), "ディルック");
}

#[test]
fn cross_reference_repeated_label() {
    let b = vec![id("ディルック", 1), id("ジン", 2)];
    let later_wins = LocaleMap::build(&vec![id("Knight", 1), id("Knight", 2)], &b);
    assert_eq!(later_wins.display_name("Knight"), "ジン");
    let unmatched_adds_nothing = LocaleMap::build(&vec![id("Knight", 1), id("Knight", 3)], &b);
    assert_eq!(unmatched_adds_nothing.display_name("Knight"), "ディルック");
}

fn entry(name: &str, names: &[(&str, &str)]) -> CharacterEntry {
    CharacterEntry {
        name: name.to_string(),
        names: names.iter().map(|(locale, name)| (locale.to_string(), name.to_string())).collect(),
        ..CharacterEntry::default()
    }
}

#[test]
fn roster_names_in_a_locale() {
    let roster = vec![
        entry("Diluc", &[("EN", "Diluc"), ("JP", "ディルック"), ("KR", "다이루크")]),
        entry("Aloy", &[("EN", "Aloy")]),
        entry("Jean", &[("JP", "ジン(旧)"), ("JP", "ジン")]),
    ];
    let jp = LocaleMap::from_roster(&roster, "JP");
    assert_eq!(jp.len(), 2);
    assert_eq!(jp.display_name("Diluc"), "ディルック");
    assert_eq!(jp.display_name("Aloy"), "Aloy");
    assert_eq!(jp.display_name("Jean"), "ジン");
    let kr = LocaleMap::from_roster(&roster, "KR");
    assert_eq!(kr.len(), 1);
    assert_eq!(kr.display_name("Diluc"), "다이루크");
    assert_eq!(LocaleMap::from_roster(&roster, "jp").len(), 0);
}

use weekday_materials::{
    day_to_mat_type, fixed_day_to_mat_type, material_name_to_day_of_week, read_resources,
    DayOfWeek, ResourceEntry, ResourceIndex, ResourcesRoot, ScheduleDerivationError,
    TalentLevelUpMaterialType,
};

use weekday_materials::TalentLevelUpMaterialType::{
    Admonition, Ballad, Conflict, Contention, Diligence, Elegance, Equity, Freedom, Gold,
    Ingenuity, Justice, Kindling, Light, Order, Praxis, Prosperity, Resistance, Transience,
};

const WEEK: [DayOfWeek; 7] = [
    DayOfWeek::Monday,
    DayOfWeek::Tuesday,
    DayOfWeek::Wednesday,
    DayOfWeek::Thursday,
    DayOfWeek::Friday,
    DayOfWeek::Saturday,
    DayOfWeek::Sunday,
];

fn talent(name: &str, days: Option<&[&str]>) -> ResourceEntry {
    ResourceEntry {
        object_type: "item".to_string(),
        name: name.to_string(),
        type_field: "Talent Level-Up Material".to_string(),
        days: days.map(|days| days.iter().map(|day| day.to_string()).collect()),
        ..ResourceEntry::default()
    }
}

fn index(data: Vec<ResourceEntry>) -> ResourceIndex {
    read_resources(ResourcesRoot { data })
}

fn whole_week(name: &str) -> ResourceEntry {
    talent(
        name,
        Some(&["Monday", "Tuesday", "Wednesday", "Thursday", "Friday", "Saturday", "Sunday"]),
    )
}

fn complete_catalog() -> Vec<ResourceEntry> {
    let mut data = Vec::new();
    for member in TalentLevelUpMaterialType::all() {
        let days: [&str; 3] = match member.ordinal() % 3 {
            0 => ["Monday", "Thursday", "Sunday"],
            1 => ["Tuesday", "Friday", "Sunday"],
            _ => ["Wednesday", "Saturday", "Sunday"],
        };
        for tier in ["Philosophies of", "Teachings of", "Guide to"] {
            data.push(talent(&format!("{} {}", tier, member.as_str()), Some(&days)));
        }
    }
    data
}

#[test]
fn fixed_schedule_lists() {
    let schedule = fixed_day_to_mat_type();
    assert_eq!(schedule.len(), 7);
    let monday = vec![Contention, Equity, Admonition, Transience, Prosperity, Freedom];
    let tuesday = vec![Kindling, Justice, Ingenuity, Elegance, Diligence, Resistance];
    let wednesday = vec![Conflict, Order, Praxis, Light, Gold, Ballad];
    assert_eq!(schedule.get(&DayOfWeek::Monday), Some(&monday));
    assert_eq!(schedule.get(&DayOfWeek::Tuesday), Some(&tuesday));
    assert_eq!(schedule.get(&DayOfWeek::Wednesday), Some(&wednesday));
    assert_eq!(schedule.get(&DayOfWeek::Thursday), Some(&monday));
    assert_eq!(schedule.get(&DayOfWeek::Friday), Some(&tuesday));
    assert_eq!(schedule.get(&DayOfWeek::Saturday), Some(&wednesday));
}

#[test]
fn fixed_schedule_sunday_holds_every_type() {
    let schedule = fixed_day_to_mat_type();
    let sunday = schedule.get(&DayOfWeek::Sunday).unwrap();
    assert_eq!(sunday.len(), 18);
    let mut newest_first = TalentLevelUpMaterialType::all();
    newest_first.reverse();
    assert_eq!(sunday, &newest_first);
    for member in TalentLevelUpMaterialType::all() {
        assert_eq!(sunday.iter().filter(|other| **other == member).count(), 1);
    }
}

#[test]
fn fixed_schedule_covers_the_week() {
    let schedule = fixed_day_to_mat_type();
    for day in WEEK {
        assert!(!schedule.get(&day).unwrap().is_empty());
    }
}

#[test]
fn derived_schedule_of_a_complete_catalog_is_the_fixed_one() {
    let derived = day_to_mat_type(&index(complete_catalog())).unwrap();
    let fixed = fixed_day_to_mat_type();
    assert_eq!(derived.len(), 7);
    for day in WEEK {
        assert_eq!(derived.get(&day), fixed.get(&day));
    }
}

#[test]
fn derived_schedule_is_sorted_newest_first() {
    let schedule = day_to_mat_type(&index(vec![
        whole_week("Teachings of Gold"),
        whole_week("Teachings of Conflict"),
        talent("Teachings of Freedom", Some(&["Friday"])),
        whole_week("Teachings of Justice"),
        talent("Guide to Order", Some(&["Friday"])),
    ]))
    .unwrap();
    assert_eq!(schedule.get(&DayOfWeek::Monday), Some(&vec![Conflict, Justice, Gold]));
    assert_eq!(schedule.get(&DayOfWeek::Friday), Some(&vec![Conflict, Justice, Gold, Freedom]));
    assert_eq!(schedule.get(&DayOfWeek::Sunday), Some(&vec![Conflict, Justice, Gold]));
}

#[test]
fn derived_schedule_counts_each_item_and_label() {
    let schedule = day_to_mat_type(&index(vec![
        whole_week("Teachings of Gold"),
        talent("Teachings of Gold (old)", Some(&["Monday", "Monday"])),
        talent("Teachings of Light", Some(&["Monday"])),
    ]))
    .unwrap();
    assert_eq!(schedule.get(&DayOfWeek::Monday), Some(&vec![Light, Gold, Gold, Gold]));
    assert_eq!(schedule.get(&DayOfWeek::Tuesday), Some(&vec![Gold]));
}

#[test]
fn derived_schedule_reads_teachings_only() {
    let schedule = day_to_mat_type(&index(vec![
        whole_week("Teachings of Ballad"),
        talent("Guide to Praxis", Some(&["Monday", "Someday"])),
        talent("Philosophies of Nothing", None),
        talent("Crown of Insight", None),
    ]))
    .unwrap();
    for day in WEEK {
        assert_eq!(schedule.get(&day), Some(&vec![Ballad]));
    }
}

#[test]
fn derived_schedule_missing_days() {
    let outcome = day_to_mat_type(&index(vec![
        whole_week("Teachings of Ballad"),
        talent("Teachings of Gold", None),
    ]));
    assert_eq!(outcome.err(), Some(ScheduleDerivationError::MissingWeekdays));
}

#[test]
fn derived_schedule_unknown_day() {
    let outcome = day_to_mat_type(&index(vec![
        whole_week("Teachings of Ballad"),
        talent("Teachings of Gold", Some(&["Monday", "Moonday"])),
    ]));
    assert_eq!(outcome.err(), Some(ScheduleDerivationError::UnknownWeekday));
}

#[test]
fn derived_schedule_unknown_material() {
    let outcome = day_to_mat_type(&index(vec![
        whole_week("Teachings of Ballad"),
        talent("Teachings of Silver", Some(&["Monday"])),
    ]));
    assert_eq!(outcome.err(), Some(ScheduleDerivationError::UnknownMaterial));
}

#[test]
fn derived_schedule_unnamed_item_without_labels_is_no_error() {
    let schedule = day_to_mat_type(&index(vec![
        whole_week("Teachings of Ballad"),
        talent("Teachings of Silver", Some(&[])),
    ]))
    .unwrap();
    assert_eq!(schedule.get(&DayOfWeek::Monday), Some(&vec![Ballad]));
}

#[test]
fn derived_schedule_first_fault_decides() {
    let label_before_name = day_to_mat_type(&index(vec![talent(
        "Teachings of Silver",
        Some(&["Moonday"]),
    )]));
    assert_eq!(label_before_name.err(), Some(ScheduleDerivationError::UnknownWeekday));
    let name_before_later_label = day_to_mat_type(&index(vec![talent(
        "Teachings of Silver",
        Some(&["Monday", "Moonday"]),
    )]));
    assert_eq!(name_before_later_label.err(), Some(ScheduleDerivationError::UnknownMaterial));
    let earlier_item_first = day_to_mat_type(&index(vec![
        talent("Teachings of Gold", None),
        talent("Teachings of Silver", Some(&["Monday"])),
    ]));
    assert_eq!(earlier_item_first.err(), Some(ScheduleDerivationError::MissingWeekdays));
}

#[test]
fn derived_schedule_uncovered_day() {
    let outcome = day_to_mat_type(&index(vec![talent(
        "Teachings of Ballad",
        Some(&["Monday", "Tuesday", "Wednesday", "Thursday", "Friday", "Sunday"]),
    )]));
    assert_eq!(outcome.err(), Some(ScheduleDerivationError::UncoveredWeekday));
    assert_eq!(
        day_to_mat_type(&index(Vec::new())).err(),
        Some(ScheduleDerivationError::UncoveredWeekday)
    );
}

#[test]
fn index_keeps_talent_items_only() {
    let mut weapon = talent("Teachings of Freedom", Some(&["Monday"]));
    weapon.type_field = "Weapon Ascension Material".to_string();
    let mut domain = talent("Teachings of Resistance", Some(&["Tuesday"]));
    domain.object_type = "domain".to_string();
    let resources = index(vec![
        weapon,
        talent("Teachings of Ballad", Some(&["Wednesday"])),
        domain,
        talent("Guide to Ballad", None),
    ]);
    assert_eq!(resources.len(), 2);
    let names: Vec<&str> = resources.values().iter().map(|entry| entry.name.as_str()).collect();
    assert_eq!(names, vec!["Teachings of Ballad", "Guide to Ballad"]);
    assert!(resources.get("Teachings of Freedom").is_none());
    assert!(resources.get("Teachings of Resistance").is_none());
    assert!(resources.get("Teachings of Ballad").is_some());
}

#[test]
fn index_last_record_of_a_name_counts() {
    let mut other_kind = talent("Teachings of Gold", Some(&["Sunday"]));
    other_kind.type_field = "Local Specialty".to_string();
    let resources = index(vec![
        talent("Teachings of Gold", Some(&["Monday"])),
        talent("Teachings of Light", Some(&["Tuesday"])),
        talent("Teachings of Gold", Some(&["Wednesday", "Saturday"])),
        other_kind,
    ]);
    assert_eq!(resources.len(), 2);
    let names: Vec<&str> = resources.values().iter().map(|entry| entry.name.as_str()).collect();
    assert_eq!(names, vec!["Teachings of Gold", "Teachings of Light"]);
    assert_eq!(
        material_name_to_day_of_week("Teachings of Gold", &resources),
        Some(vec![DayOfWeek::Wednesday, DayOfWeek::Saturday])
    );
}

#[test]
fn weekdays_of_a_material() {
    let resources = index(vec![
        talent("Guide to Justice", Some(&["Tuesday", "Friday", "Sunday"])),
        talent("Guide to Order", None),
        talent("Guide to Equity", Some(&[])),
        talent("Guide to Gold", Some(&["Monday", "monday"])),
        talent("Guide to Light", Some(&["Sunday", "Sunday"])),
    ]);
    assert_eq!(
        material_name_to_day_of_week("Guide to Justice", &resources),
        Some(vec![DayOfWeek::Tuesday, DayOfWeek::Friday, DayOfWeek::Sunday])
    );
    assert_eq!(
        material_name_to_day_of_week("Guide to Light", &resources),
        Some(vec![DayOfWeek::Sunday, DayOfWeek::Sunday])
    );
    assert_eq!(material_name_to_day_of_week("Guide to Order", &resources), None);
    assert_eq!(material_name_to_day_of_week("Guide to Equity", &resources), None);
    assert_eq!(material_name_to_day_of_week("Guide to Gold", &resources), None);
    assert_eq!(material_name_to_day_of_week("Guide to Freedom", &resources), None);
    assert_eq!(material_name_to_day_of_week("guide to justice", &resources), None);
}

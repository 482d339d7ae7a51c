use weekday_materials::{relevant_days, DayOfWeek};

const DAYS: [(&str, DayOfWeek); 7] = [
    ("Monday", DayOfWeek::Monday),
    ("Tuesday", DayOfWeek::Tuesday),
    ("Wednesday", DayOfWeek::Wednesday),
    ("Thursday", DayOfWeek::Thursday),
    ("Friday", DayOfWeek::Friday),
    ("Saturday", DayOfWeek::Saturday),
    ("Sunday", DayOfWeek::Sunday),
];

fn marks(today: DayOfWeek) -> Vec<bool> {
    relevant_days(today).iter().map(|day| day.is_today).collect()
}

#[test]
fn relevant_days_on_sunday() {
    assert_eq!(marks(DayOfWeek::Sunday), vec![true, true, true]);
}

#[test]
fn relevant_days_on_tuesday() {
    assert_eq!(marks(DayOfWeek::Tuesday), vec![false, true, false]);
}

#[test]
fn relevant_days_on_every_other_day() {
    assert_eq!(marks(DayOfWeek::Monday), vec![true, false, false]);
    assert_eq!(marks(DayOfWeek::Wednesday), vec![false, false, true]);
    assert_eq!(marks(DayOfWeek::Thursday), vec![true, false, false]);
    assert_eq!(marks(DayOfWeek::Friday), vec![false, true, false]);
    assert_eq!(marks(DayOfWeek::Saturday), vec![false, false, true]);
}

#[test]
fn relevant_days_leaders_and_labels() {
    for (_, today) in DAYS {
        let days = relevant_days(today);
        assert_eq!(days.len(), 3);
        assert_eq!(days[0].day_of_week, DayOfWeek::Monday);
        assert_eq!(days[0].display_name, "月/木");
        assert_eq!(days[1].day_of_week, DayOfWeek::Tuesday);
        assert_eq!(days[1].display_name, "火/金");
        assert_eq!(days[2].day_of_week, DayOfWeek::Wednesday);
        assert_eq!(days[2].display_name, "水/土");
    }
}

#[test]
fn day_names_round_trip() {
    for (position, (name, day)) in DAYS.iter().enumerate() {
        assert_eq!(day.as_str(), *name);
        assert_eq!(DayOfWeek::from_name(name), Some(*day));
        assert_eq!(day.index(), position);
        assert_eq!(DayOfWeek::from_index(position), Some(*day));
        assert_eq!(DayOfWeek::all()[position], *day);
    }
    assert_eq!(DayOfWeek::from_index(7), None);
}

#[test]
fn day_names_are_exact() {
    assert_eq!(DayOfWeek::from_name("monday"), None);
    assert_eq!(DayOfWeek::from_name("Mon"), None);
    assert_eq!(DayOfWeek::from_name(" Monday"), None);
    assert_eq!(DayOfWeek::from_name("Mondays"), None);
    assert_eq!(DayOfWeek::from_name(""), None);
    assert_eq!(DayOfWeek::from_name("月"), None);
}

#[test]
fn day_partners() {
    assert_eq!(DayOfWeek::Monday.partner(), DayOfWeek::Thursday);
    assert_eq!(DayOfWeek::Tuesday.partner(), DayOfWeek::Friday);
    assert_eq!(DayOfWeek::Wednesday.partner(), DayOfWeek::Saturday);
    assert_eq!(DayOfWeek::Thursday.partner(), DayOfWeek::Monday);
    assert_eq!(DayOfWeek::Friday.partner(), DayOfWeek::Tuesday);
    assert_eq!(DayOfWeek::Saturday.partner(), DayOfWeek::Wednesday);
    assert_eq!(DayOfWeek::Sunday.partner(), DayOfWeek::Sunday);
}

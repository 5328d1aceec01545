use lcr::data::{
    Companionship, Date, EQMinisteringAssignments, MemberProfileIndividual, MinisteringAssignment,
    MinisteringCompanionship, QuorumOrClass, RSMinisteringAssignments,
};
use lcr::names::NameSet;
use lcr::report::ministering_changes;
use std::collections::HashMap;

fn minister(name: &str, id: u64) -> MinisteringCompanionship {
    MinisteringCompanionship { name: name.to_string(), legacy_cmis_id: id }
}

fn assignment(name: &str, id: u64) -> MinisteringAssignment {
    MinisteringAssignment { name: name.to_string(), legacy_cmis_id: id }
}

fn names_of(set: &NameSet) -> Vec<String> {
    set.names().clone()
}

fn profile(move_date: Option<&str>) -> MemberProfileIndividual {
    MemberProfileIndividual {
        move_date: move_date.map(|text| text.to_string()),
        mrn: None,
        id: 1,
        endowed: None,
    }
}

fn julian_day(year: i32, month: time::Month, day: u8) -> i32 {
    time::Date::from_calendar_date(year, month, day).unwrap().to_julian_day()
}

#[test]
fn name_set_keeps_each_name_once() {
    let mut set = NameSet::new();
    assert!(set.is_empty());
    assert_eq!(set.len(), 0);
    assert!(set.insert("A".to_string()));
    assert!(set.insert("B".to_string()));
    assert!(!set.insert("A".to_string()));
    assert_eq!(set.len(), 2);
    assert!(!set.is_empty());
    assert!(set.contains("A"));
    assert!(set.contains("B"));
    assert!(!set.contains("a"));
    assert_eq!(names_of(&set), vec!["A", "B"]);
}

#[test]
fn name_set_difference() {
    let mut first = NameSet::new();
    let mut second = NameSet::new();
    for name in ["A", "B", "C", "D"] {
        first.insert(name.to_string());
    }
    for name in ["D", "B", "E"] {
        second.insert(name.to_string());
    }
    assert_eq!(first.difference(&second), vec!["A", "C"]);
    assert_eq!(second.difference(&first), vec!["E"]);
    assert!(first.difference(&first).is_empty());
    assert_eq!(first.difference(&NameSet::new()), vec!["A", "B", "C", "D"]);
}

#[test]
fn only_females_leaves_out_known_males() {
    let companionship = Companionship {
        ministers: vec![minister("A", 1), minister("B", 2)],
        assignments: None,
    };
    let mut females_by_id = HashMap::new();
    females_by_id.insert(1u64, true);
    females_by_id.insert(2u64, false);
    let mut set = NameSet::new();
    companionship.collect_unique_names(&mut set, true, &females_by_id);
    assert_eq!(names_of(&set), vec!["A"]);
    assert!(set.contains("A"));
    assert!(!set.contains("B"));
    assert_eq!(set.len(), 1);
}

#[test]
fn unknown_people_count_as_female() {
    let companionship = Companionship {
        ministers: vec![minister("A", 1), minister("B", 2)],
        assignments: Some(vec![assignment("C", 3), assignment("D", 4)]),
    };
    let mut females_by_id = HashMap::new();
    females_by_id.insert(2u64, false);
    females_by_id.insert(3u64, false);
    let mut set = NameSet::new();
    companionship.collect_unique_names(&mut set, true, &females_by_id);
    assert_eq!(names_of(&set), vec!["A", "D"]);
}

#[test]
fn without_the_filter_everyone_is_collected() {
    let companionship = Companionship {
        ministers: vec![minister("A", 1), minister("B", 2)],
        assignments: Some(vec![assignment("C", 3), assignment("A", 1)]),
    };
    let mut females_by_id = HashMap::new();
    females_by_id.insert(1u64, false);
    females_by_id.insert(2u64, false);
    females_by_id.insert(3u64, false);
    let mut set = NameSet::new();
    set.insert("Z".to_string());
    companionship.collect_unique_names(&mut set, false, &females_by_id);
    assert_eq!(names_of(&set), vec!["Z", "A", "B", "C"]);
}

#[test]
fn empty_companionship_adds_nothing() {
    let companionship = Companionship { ministers: Vec::new(), assignments: None };
    let mut set = NameSet::new();
    set.insert("Z".to_string());
    companionship.collect_unique_names(&mut set, true, &HashMap::new());
    assert_eq!(names_of(&set), vec!["Z"]);
    let companionship = Companionship { ministers: Vec::new(), assignments: Some(Vec::new()) };
    companionship.collect_unique_names(&mut set, false, &HashMap::new());
    assert_eq!(names_of(&set), vec!["Z"]);
}

#[test]
fn groups_collect_from_all_their_companionships() {
    let quorum = QuorumOrClass {
        companionships: vec![
            Companionship {
                ministers: vec![minister("A", 1), minister("B", 2)],
                assignments: Some(vec![assignment("C", 3)]),
            },
            Companionship { ministers: vec![minister("B", 2), minister("D", 4)], assignments: None },
        ],
    };
    let mut females_by_id = HashMap::new();
    females_by_id.insert(4u64, false);
    let mut set = NameSet::new();
    quorum.collect_unique_names(&mut set, false, &females_by_id);
    assert_eq!(names_of(&set), vec!["A", "B", "C", "D"]);
    let mut set = NameSet::new();
    quorum.collect_unique_names(&mut set, true, &females_by_id);
    assert_eq!(names_of(&set), vec!["A", "B", "C"]);
}

#[test]
fn assignments_of_elders_and_relief_society_collect() {
    let elders = EQMinisteringAssignments {
        elders: vec![
            QuorumOrClass {
                companionships: vec![Companionship {
                    ministers: vec![minister("E1", 1)],
                    assignments: Some(vec![assignment("W1", 11), assignment("M1", 12)]),
                }],
            },
            QuorumOrClass { companionships: Vec::new() },
            QuorumOrClass {
                companionships: vec![Companionship {
                    ministers: vec![minister("E2", 2)],
                    assignments: Some(vec![assignment("W2", 13)]),
                }],
            },
        ],
    };
    let relief_society = RSMinisteringAssignments {
        relief_society: vec![QuorumOrClass {
            companionships: vec![Companionship {
                ministers: vec![minister("W1", 11), minister("W3", 14)],
                assignments: Some(vec![assignment("W2", 13)]),
            }],
        }],
    };
    let mut females_by_id = HashMap::new();
    females_by_id.insert(1u64, false);
    females_by_id.insert(2u64, false);
    females_by_id.insert(12u64, false);
    females_by_id.insert(11u64, true);
    let mut from_elders = NameSet::new();
    elders.collect_unique_names(&mut from_elders, true, &females_by_id);
    assert_eq!(names_of(&from_elders), vec!["W1", "W2"]);
    let mut from_relief_society = NameSet::new();
    relief_society.collect_unique_names(&mut from_relief_society, true, &females_by_id);
    assert_eq!(names_of(&from_relief_society), vec!["W1", "W3", "W2"]);
    assert_eq!(
        ministering_changes(&from_elders, &from_relief_society),
        "Women to remove from ministering:\n\n\nWomen to add to ministering:\nW3\n\n"
    );
}

#[test]
fn ministering_changes_put_each_name_on_a_line() {
    let mut first = NameSet::new();
    let mut second = NameSet::new();
    for name in ["A", "B", "C"] {
        first.insert(name.to_string());
    }
    second.insert("D".to_string());
    assert_eq!(
        ministering_changes(&first, &second),
        "Women to remove from ministering:\nA\t\nB\t\nC\n\nWomen to add to ministering:\nD\n\n"
    );
    assert_eq!(
        ministering_changes(&NameSet::new(), &NameSet::new()),
        "Women to remove from ministering:\n\n\nWomen to add to ministering:\n\n\n"
    );
}

#[test]
fn move_date_reads_year_month_and_day() {
    assert_eq!(profile(Some("20230101")).move_date(), Some(Date { julian_day: 2_459_946 }));
    assert_eq!(
        profile(Some("20000101")).move_date(),
        Some(Date { julian_day: julian_day(2000, time::Month::January, 1) })
    );
    assert_eq!(profile(Some("20000101")).move_date(), Some(Date { julian_day: 2_451_545 }));
    assert_eq!(
        profile(Some("19991231")).move_date(),
        Some(Date { julian_day: julian_day(1999, time::Month::December, 31) })
    );
    assert_eq!(
        profile(Some("20240229")).move_date(),
        Some(Date { julian_day: julian_day(2024, time::Month::February, 29) })
    );
}

#[test]
fn move_date_that_is_no_date_is_none() {
    assert_eq!(profile(None).move_date(), None);
    assert_eq!(profile(Some("")).move_date(), None);
    assert_eq!(profile(Some("2023-01-01")).move_date(), None);
    assert_eq!(profile(Some("20230229")).move_date(), None);
    assert_eq!(profile(Some("20231301")).move_date(), None);
    assert_eq!(profile(Some("202301")).move_date(), None);
    assert_eq!(profile(Some("20230101x")).move_date(), None);
    assert_eq!(profile(Some("1 Jan 2023")).move_date(), None);
}

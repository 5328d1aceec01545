use lcr::data::{Date, MemberListPerson, MemberProfile, MemberProfileIndividual};
use lcr::buckets::{bucket_counts, time_in_ward_buckets, Bucket, TenureRow};
use lcr::report::{
    age_buckets, age_report, bar, females_by_id, gender_buckets, gender_report, is_male,
    male_emails, months_in_ward, tenure_heading, tenure_line, time_in_ward, GenderBuckets,
};

fn member(age: u8, sex: &str, email: Option<&str>, id: u64) -> MemberListPerson {
    MemberListPerson {
        address: None,
        age,
        convert: false,
        email: email.map(|text| text.to_string()),
        phone_number: None,
        sex: sex.to_string(),
        legacy_cmis_id: id,
        name_given_preferred_local: String::new(),
        name_family_preferred_local: String::new(),
        name_list_preferred_local: String::new(),
    }
}

fn profile(move_date: Option<&str>) -> MemberProfile {
    MemberProfile {
        individual: MemberProfileIndividual {
            move_date: move_date.map(|text| text.to_string()),
            mrn: None,
            id: 7,
            endowed: None,
        },
    }
}

fn day(year: i32, month: time::Month, day: u8) -> time::Date {
    time::Date::from_calendar_date(year, month, day).unwrap()
}

fn as_date(date: time::Date) -> Date {
    Date { julian_day: date.to_julian_day() }
}

fn three_members() -> Vec<MemberListPerson> {
    vec![member(10, "M", None, 1), member(10, "F", None, 2), member(12, "m", None, 3)]
}

#[test]
fn gender_buckets_of_three() {
    let buckets = gender_buckets(&three_members());
    assert_eq!(buckets, GenderBuckets { male: 2, female: 1 });
}

#[test]
fn age_buckets_of_three() {
    let buckets = age_buckets(&three_members());
    assert_eq!(buckets, vec![Bucket { key: 10, count: 2 }, Bucket { key: 12, count: 1 }]);
}

#[test]
fn male_is_the_letter_m_in_either_case() {
    assert!(is_male("M"));
    assert!(is_male("m"));
    assert!(!is_male("F"));
    assert!(!is_male(""));
    assert!(!is_male("MM"));
    assert!(!is_male("Male"));
    assert!(!is_male(" m"));
    for sex in ["M", "m", "F", "", "MM", "Male", "\u{212a}", "ɱ"] {
        assert_eq!(is_male(sex), sex.eq_ignore_ascii_case("m"));
    }
}

#[test]
fn gender_buckets_of_nobody() {
    assert_eq!(gender_buckets(&Vec::new()), GenderBuckets { male: 0, female: 0 });
    assert!(age_buckets(&Vec::new()).is_empty());
}

#[test]
fn bucket_counts_sort_their_keys() {
    let buckets = bucket_counts(&vec![5, -3, 5, 0, 12, -3, 5, i64::MAX, i64::MIN]);
    assert_eq!(
        buckets,
        vec![
            Bucket { key: i64::MIN, count: 1 },
            Bucket { key: -3, count: 2 },
            Bucket { key: 0, count: 1 },
            Bucket { key: 5, count: 3 },
            Bucket { key: 12, count: 1 },
            Bucket { key: i64::MAX, count: 1 },
        ]
    );
    assert!(bucket_counts(&Vec::new()).is_empty());
}

#[test]
fn bucket_counts_go_beyond_a_byte() {
    let values: Vec<i64> = (0..300).map(|_| 4).collect();
    assert_eq!(bucket_counts(&values), vec![Bucket { key: 4, count: 300 }]);
}

#[test]
fn tenure_table_keeps_a_running_count() {
    let rows = time_in_ward_buckets(&vec![13, 2, 2, 40, 13, 2, 0]);
    assert_eq!(
        rows,
        vec![
            TenureRow { months: 0, count: 1, running: 1 },
            TenureRow { months: 2, count: 3, running: 4 },
            TenureRow { months: 13, count: 2, running: 6 },
            TenureRow { months: 40, count: 1, running: 7 },
        ]
    );
    assert!(time_in_ward_buckets(&Vec::new()).is_empty());
}

#[test]
fn running_counts_and_shares_never_fall() {
    let months: Vec<i64> = vec![7, 7, 1, 300, 25, 25, 25, 0, -1, 12, 12, 48, 1];
    let rows = time_in_ward_buckets(&months);
    let total = months.len();
    let mut last_running = 0;
    let mut last_share = 0.0f32;
    let mut last_months = i64::MIN;
    let mut counted = 0;
    for row in &rows {
        assert!(row.months > last_months || counted == 0);
        assert!(row.count > 0);
        assert!(row.running >= last_running);
        counted += row.count;
        assert_eq!(row.running, counted);
        let share = (row.running as f32 / total as f32) * 100f32;
        assert!(share >= last_share);
        last_running = row.running;
        last_share = share;
        last_months = row.months;
    }
    assert_eq!(last_running, total);
    assert_eq!(last_share, 100.0);
}

#[test]
fn months_in_ward_counts_whole_weeks_by_four() {
    let now = day(2024, time::Month::January, 1);
    let moved = day(2023, time::Month::January, 1);
    assert_eq!(months_in_ward(as_date(now), as_date(moved)), 13);
    assert_eq!(months_in_ward(as_date(now), as_date(moved)), (now - moved).whole_weeks() / 4);
    assert_eq!(months_in_ward(as_date(now), as_date(now)), 0);
    assert_eq!(months_in_ward(Date { julian_day: 27 }, Date { julian_day: 0 }), 0);
    assert_eq!(months_in_ward(Date { julian_day: 28 }, Date { julian_day: 0 }), 1);
    assert_eq!(months_in_ward(Date { julian_day: 0 }, Date { julian_day: 27 }), 0);
    assert_eq!(months_in_ward(Date { julian_day: 0 }, Date { julian_day: 28 }), -1);
    assert_eq!(months_in_ward(Date { julian_day: 0 }, Date { julian_day: 55 }), -1);
    assert_eq!(months_in_ward(Date { julian_day: i32::MAX }, Date { julian_day: i32::MIN }), 153391689);
}

#[test]
fn months_in_ward_agrees_with_the_calendar() {
    let days = [
        day(1990, time::Month::March, 5),
        day(2019, time::Month::December, 31),
        day(2020, time::Month::February, 29),
        day(2023, time::Month::January, 1),
        day(2024, time::Month::June, 15),
        day(2031, time::Month::October, 9),
    ];
    for now in days {
        for moved in days {
            assert_eq!(
                months_in_ward(as_date(now), as_date(moved)),
                (now - moved).whole_weeks() / 4
            );
        }
    }
}

#[test]
fn move_in_date_against_a_fixed_now() {
    let now = as_date(day(2024, time::Month::January, 1));
    let profiles = vec![
        profile(Some("20230101")),
        profile(None),
        profile(Some("20231204")),
        profile(Some("not a date")),
        profile(Some("20240101")),
        profile(Some("20140101")),
    ];
    assert_eq!(time_in_ward(&profiles, now), vec![13, 1, 0, 130]);
    assert_eq!(time_in_ward(&profiles, now), time_in_ward(&profiles, now));
    assert!(time_in_ward(&Vec::new(), now).is_empty());
}

#[test]
fn bar_is_as_long_as_the_count() {
    assert_eq!(bar(0), "");
    assert_eq!(bar(1), "#");
    assert_eq!(bar(5), "#####");
    assert_eq!(bar(300).len(), 300);
}

#[test]
fn male_emails_pass_over_women_and_do_not_contact() {
    let members = vec![
        member(30, "M", Some("a@example.test"), 1),
        member(31, "F", Some("b@example.test"), 2),
        member(32, "M", None, 3),
        member(33, "M", Some("DNC c@example.test"), 4),
        member(34, "m", Some("d@example.test"), 5),
        member(35, "M", Some("e@example.test (dnc)"), 6),
        member(36, "M", Some("fDNC"), 7),
        member(37, "M", Some(""), 8),
    ];
    assert_eq!(male_emails(&members), vec!["a@example.test", "e@example.test (dnc)", ""]);
    assert!(male_emails(&Vec::new()).is_empty());
}

#[test]
fn females_by_id_marks_everyone_not_male() {
    let members = vec![
        member(30, "M", None, 1),
        member(31, "F", None, 2),
        member(32, "m", None, 3),
        member(33, "", None, 4),
        member(34, "M", None, 2),
    ];
    let females = females_by_id(&members);
    assert_eq!(females.len(), 4);
    assert_eq!(females.get(&1), Some(&false));
    assert_eq!(females.get(&2), Some(&false));
    assert_eq!(females.get(&3), Some(&false));
    assert_eq!(females.get(&4), Some(&true));
    assert_eq!(females.get(&5), None);
}

#[test]
fn gender_report_is_a_table() {
    let report = gender_report(&GenderBuckets { male: 2, female: 1 });
    let expected = format!(
        "\nGender buckets:\n{:^7}{:^7}\n{:^7}{:^7} {}\n{:^7}{:^7} {}\n",
        "Gender", "Count", "Male", 2, "##", "Female", 1, "#"
    );
    assert_eq!(report, expected);
    assert_eq!(report, "\nGender buckets:\nGender  Count \n Male     2    ##\nFemale    1    #\n");
}

#[test]
fn age_report_is_a_table() {
    let buckets = vec![Bucket { key: 10, count: 2 }, Bucket { key: 12, count: 1 }, Bucket { key: 101, count: 12 }];
    let mut expected = format!("\nAge buckets:\n{:^7}{:^7}\n", "Age", "Count");
    for bucket in &buckets {
        expected.push_str(&format!("{:^7}{:^7} {}\n", bucket.key, bucket.count, "#".repeat(bucket.count)));
    }
    assert_eq!(age_report(&buckets), expected);
    assert_eq!(age_report(&Vec::new()), "\nAge buckets:\n  Age   Count \n");
}

#[test]
fn tenure_report_is_a_table() {
    assert_eq!(
        tenure_heading(),
        format!("\nTime in ward buckets:\n{:^7}{:^7}{:^7}{:^7}\n", "Months", "Count", "Running", "Percent")
    );
    let rows = time_in_ward_buckets(&vec![13, 2, 2, -40, 13, 2, 0]);
    let total = 7usize;
    for row in &rows {
        let share = (row.running as f32 / total as f32) * 100f32;
        let percent = format!("{:<7.2}", share);
        let expected = format!(
            "{:^7}{:^7}{:^7}{:<7.2} {}\n",
            row.months,
            row.count,
            row.running,
            share,
            "#".repeat(row.count)
        );
        assert_eq!(tenure_line(row, &percent), expected);
    }
    assert_eq!(
        tenure_line(&TenureRow { months: 2, count: 3, running: 4 }, "57.14  "),
        "   2      3      4   57.14   ###\n"
    );
}

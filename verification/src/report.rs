//! The printed reports: members counted by sex and by age, time in the unit
//! counted in months, the addresses to write to, and the names on which two
//! sets of ministering assignments differ.
use vstd::prelude::*;
use vstd::string::StringExecFns;
use std::collections::HashMap;
use crate::buckets::{bucket_counts, is_histogram, Bucket, TenureRow};
use crate::data::{Date, MemberListPerson, MemberProfile};
use crate::names::NameSet;
use crate::text::{
    centered, centered_text, contains_text, decimal, decimal_text, has_substring, join_texts,
    joined_text, same_text, signed_decimal, signed_decimal_text, texts_view,
};

verus! {

/// Whether `sex` marks a male member: the letter M, capital or small.
pub open spec fn marks_male(sex: Seq<char>) -> bool {
    sex == seq!['M'] || sex == seq!['m']
}

/// How many of `members` are marked male.
pub open spec fn males(members: Seq<MemberListPerson>) -> nat
    decreases members.len(),
{
    if members.len() == 0 {
        0
    } else {
        males(members.drop_last()) + if marks_male(members.last().sex@) {
            1nat
        } else {
            0nat
        }
    }
}

/// Whether `sex` marks a male member.
pub fn is_male(sex: &str) -> (male: bool)
    ensures
        male == marks_male(sex@),
{
    proof {
        reveal_strlit("M");
        reveal_strlit("m");
        assert("M"@ =~= seq!['M']);
        assert("m"@ =~= seq!['m']);
    }
    same_text(sex, "M") || same_text(sex, "m")
}

/// Members counted by sex.
#[derive(Debug, Clone, Copy, PartialEq, Eq, Structural)]
pub struct GenderBuckets {
    /// Those marked male.
    pub male: usize,
    /// Everyone else.
    pub female: usize,
}

/// Counts `members` by sex: who is marked male, and who is not.
pub fn gender_buckets(members: &Vec<MemberListPerson>) -> (buckets: GenderBuckets)
    ensures
        buckets.male == males(members@),
        buckets.male + buckets.female == members@.len(),
{
    let mut male: usize = 0;
    let mut female: usize = 0;
    let mut i: usize = 0;
    while i < members.len()
        invariant
            i <= members.len(),
            male == males(members@.take(i as int)),
            male + female == i,
        decreases members.len() - i,
    {
        proof {
            assert(members@.take(i + 1).drop_last() =~= members@.take(i as int));
        }
        if is_male(members[i].sex.as_str()) {
            male = male + 1;
        } else {
            female = female + 1;
        }
        i = i + 1;
    }
    assert(members@.take(members.len() as int) =~= members@);
    GenderBuckets { male, female }
}

/// The ages of `members`, in their order.
pub open spec fn ages(members: Seq<MemberListPerson>) -> Seq<i64> {
    members.map_values(|member: MemberListPerson| member.age as i64)
}

/// Counts `members` by age; the table lists the ages seen in rising order.
pub fn age_buckets(members: &Vec<MemberListPerson>) -> (buckets: Vec<Bucket>)
    ensures
        is_histogram(buckets@, ages(members@)),
{
    let mut values: Vec<i64> = Vec::new();
    let mut i: usize = 0;
    while i < members.len()
        invariant
            i <= members.len(),
            values@ == ages(members@).take(i as int),
        decreases members.len() - i,
    {
        values.push(members[i].age as i64);
        assert(values@ =~= ages(members@).take(i + 1));
        i = i + 1;
    }
    assert(ages(members@).take(members.len() as int) =~= ages(members@));
    bucket_counts(&values)
}

/// A bar of `count` marks.
pub open spec fn bar_text(count: nat) -> Seq<char> {
    Seq::new(count, |i: int| '#')
}

/// A bar as long as `count`, drawn with `#`.
pub fn bar(count: usize) -> (drawn: String)
    ensures
        drawn@ == bar_text(count as nat),
{
    let mut drawn = String::new();
    let mut i: usize = 0;
    proof {
        reveal_strlit("#");
    }
    while i < count
        invariant
            i <= count,
            drawn@ == bar_text(i as nat),
            "#"@ == seq!['#'],
        decreases count - i,
    {
        drawn.append("#");
        i = i + 1;
        assert(drawn@ =~= bar_text(i as nat));
    }
    drawn
}

/// The quotient of `a` by a positive `b`, rounded towards zero.
pub open spec fn truncated_quotient(a: int, b: int) -> int {
    if a >= 0 {
        a / b
    } else {
        -((-a) / b)
    }
}

/// The months between two days: the whole weeks from `move_day` to `now_day`,
/// divided by four, each quotient rounded towards zero.
pub open spec fn months_between(now_day: int, move_day: int) -> int {
    truncated_quotient(truncated_quotient(now_day - move_day, 7), 4)
}

/// How many months someone who moved in on `moved` has been in the unit on the
/// day `now`: negative where `moved` lies four weeks or more ahead.
pub fn months_in_ward(now: Date, moved: Date) -> (months: i64)
    ensures
        months == months_between(now.julian_day as int, moved.julian_day as int),
{
    let days: i64 = now.julian_day as i64 - moved.julian_day as i64;
    let weeks: i64 = days / 7;
    weeks / 4
}

/// The months in the unit of those of `profiles` whose day of moving in is
/// known, in their order.
pub open spec fn tenures(profiles: Seq<MemberProfile>, now: Date) -> Seq<i64>
    decreases profiles.len(),
{
    if profiles.len() == 0 {
        Seq::empty()
    } else {
        let earlier = tenures(profiles.drop_last(), now);
        match profiles.last().individual.moved_on() {
            Some(moved) => earlier.push(
                months_between(now.julian_day as int, moved.julian_day as int) as i64,
            ),
            None => earlier,
        }
    }
}

/// How many months each of `profiles` has been in the unit on the day `now`;
/// a profile without a day of moving in that reads as a date is passed over.
pub fn time_in_ward(profiles: &Vec<MemberProfile>, now: Date) -> (months: Vec<i64>)
    ensures
        months@ == tenures(profiles@, now),
{
    let mut months: Vec<i64> = Vec::new();
    let mut i: usize = 0;
    while i < profiles.len()
        invariant
            i <= profiles.len(),
            months@ == tenures(profiles@.take(i as int), now),
        decreases profiles.len() - i,
    {
        proof {
            assert(profiles@.take(i + 1).drop_last() =~= profiles@.take(i as int));
        }
        match profiles[i].individual.move_date() {
            Some(moved) => {
                months.push(months_in_ward(now, moved));
            },
            None => {},
        }
        i = i + 1;
    }
    assert(profiles@.take(profiles.len() as int) =~= profiles@);
    months
}

/// Whether a member's address is among those written to: the member is marked
/// with a capital M, and has an address that does not hold `DNC`.
pub open spec fn is_written_to(member: MemberListPerson) -> bool {
    member.sex@ == "M"@ && match member.email {
        Some(email) => !has_substring(email@, "DNC"@),
        None => false,
    }
}

/// The addresses of those of `members` that are written to, in their order.
pub open spec fn male_email_texts(members: Seq<MemberListPerson>) -> Seq<Seq<char>>
    decreases members.len(),
{
    if members.len() == 0 {
        Seq::empty()
    } else {
        let earlier = male_email_texts(members.drop_last());
        if is_written_to(members.last()) {
            earlier.push(members.last().email->0@)
        } else {
            earlier
        }
    }
}

/// The addresses of the men among `members`, without those that ask not to be
/// written to.
pub fn male_emails(members: &Vec<MemberListPerson>) -> (emails: Vec<String>)
    ensures
        texts_view(emails@) == male_email_texts(members@),
{
    let mut emails: Vec<String> = Vec::new();
    let mut i: usize = 0;
    while i < members.len()
        invariant
            i <= members.len(),
            texts_view(emails@) == male_email_texts(members@.take(i as int)),
        decreases members.len() - i,
    {
        proof {
            assert(members@.take(i + 1).drop_last() =~= members@.take(i as int));
        }
        let member = &members[i];
        if same_text(member.sex.as_str(), "M") {
            match &member.email {
                Some(email) => {
                    if !contains_text(email.as_str(), "DNC") {
                        let ghost before = emails@;
                        emails.push(email.clone());
                        assert(texts_view(emails@) =~= texts_view(before).push(email@));
                    }
                },
                None => {},
            }
        }
        i = i + 1;
    }
    assert(members@.take(members.len() as int) =~= members@);
    emails
}

/// How wide each field of a printed table is, in characters.
pub const FIELD_WIDTH: usize = 7;

/// A line of a table of counts: the label and the count, each in the middle of
/// its field, then a space and a bar as long as the count.
pub open spec fn count_line_text(label: Seq<char>, count: nat) -> Seq<char> {
    centered_text(label, FIELD_WIDTH as nat) + centered_text(
        decimal_text(count),
        FIELD_WIDTH as nat,
    ) + " "@ + bar_text(count) + "\n"@
}

/// The heading of a table of counts: its title on a line of its own after an
/// empty line, then the names of its two columns.
pub open spec fn count_heading_text(title: Seq<char>, label: Seq<char>) -> Seq<char> {
    "\n"@ + title + "\n"@ + centered_text(label, FIELD_WIDTH as nat) + centered_text(
        "Count"@,
        FIELD_WIDTH as nat,
    ) + "\n"@
}

/// The printed table of members by sex.
pub open spec fn gender_report_text(buckets: GenderBuckets) -> Seq<char> {
    count_heading_text("Gender buckets:"@, "Gender"@) + count_line_text(
        "Male"@,
        buckets.male as nat,
    ) + count_line_text("Female"@, buckets.female as nat)
}

/// The lines of a printed table of counts, one for each of `buckets`.
pub open spec fn bucket_lines_text(buckets: Seq<Bucket>) -> Seq<char>
    decreases buckets.len(),
{
    if buckets.len() == 0 {
        Seq::empty()
    } else {
        bucket_lines_text(buckets.drop_last()) + count_line_text(
            signed_decimal_text(buckets.last().key as int),
            buckets.last().count as nat,
        )
    }
}

/// The printed table of members by age.
pub open spec fn age_report_text(buckets: Seq<Bucket>) -> Seq<char> {
    count_heading_text("Age buckets:"@, "Age"@) + bucket_lines_text(buckets)
}

/// The heading of the printed table of time in the unit.
pub open spec fn tenure_heading_text() -> Seq<char> {
    "\nTime in ward buckets:\n"@ + centered_text("Months"@, FIELD_WIDTH as nat) + centered_text(
        "Count"@,
        FIELD_WIDTH as nat,
    ) + centered_text("Running"@, FIELD_WIDTH as nat) + centered_text(
        "Percent"@,
        FIELD_WIDTH as nat,
    ) + "\n"@
}

/// A line of the printed table of time in the unit: the months, the count and
/// the running count, each in the middle of its field, then the share as it
/// was written by the caller, a space, and a bar as long as the count.
pub open spec fn tenure_line_text(row: TenureRow, percent: Seq<char>) -> Seq<char> {
    centered_text(signed_decimal_text(row.months as int), FIELD_WIDTH as nat) + centered_text(
        decimal_text(row.count as nat),
        FIELD_WIDTH as nat,
    ) + centered_text(decimal_text(row.running as nat), FIELD_WIDTH as nat) + percent + " "@
        + bar_text(row.count as nat) + "\n"@
}

fn push_count_line(report: &mut String, label: &str, count: usize)
    ensures
        final(report)@ == old(report)@ + count_line_text(label@, count as nat),
{
    report.append(centered(label, FIELD_WIDTH).as_str());
    report.append(centered(decimal(count as u64).as_str(), FIELD_WIDTH).as_str());
    report.append(" ");
    report.append(bar(count).as_str());
    report.append("\n");
    assert(report@ =~= old(report)@ + count_line_text(label@, count as nat));
}

fn count_heading(title: &str, label: &str) -> (heading: String)
    ensures
        heading@ == count_heading_text(title@, label@),
{
    let mut heading = String::from_str("\n");
    heading.append(title);
    heading.append("\n");
    heading.append(centered(label, FIELD_WIDTH).as_str());
    heading.append(centered("Count", FIELD_WIDTH).as_str());
    heading.append("\n");
    heading
}

/// The table of members by sex, as it is printed.
pub fn gender_report(buckets: &GenderBuckets) -> (report: String)
    ensures
        report@ == gender_report_text(*buckets),
{
    let mut report = count_heading("Gender buckets:", "Gender");
    push_count_line(&mut report, "Male", buckets.male);
    push_count_line(&mut report, "Female", buckets.female);
    assert(report@ =~= gender_report_text(*buckets));
    report
}

/// The table of members by age, as it is printed.
pub fn age_report(buckets: &Vec<Bucket>) -> (report: String)
    ensures
        report@ == age_report_text(buckets@),
{
    let mut report = count_heading("Age buckets:", "Age");
    let ghost heading = report@;
    let mut i: usize = 0;
    assert(report@ =~= heading + bucket_lines_text(buckets@.take(0)));
    while i < buckets.len()
        invariant
            i <= buckets.len(),
            report@ == heading + bucket_lines_text(buckets@.take(i as int)),
        decreases buckets.len() - i,
    {
        proof {
            assert(buckets@.take(i + 1).drop_last() =~= buckets@.take(i as int));
        }
        let ghost before = report@;
        let label = signed_decimal(buckets[i].key);
        push_count_line(&mut report, label.as_str(), buckets[i].count);
        assert(report@ =~= heading + bucket_lines_text(buckets@.take(i + 1)));
        i = i + 1;
    }
    assert(buckets@.take(buckets.len() as int) =~= buckets@);
    report
}

/// The heading of the table of time in the unit, as it is printed.
pub fn tenure_heading() -> (heading: String)
    ensures
        heading@ == tenure_heading_text(),
{
    let mut heading = String::from_str("\nTime in ward buckets:\n");
    heading.append(centered("Months", FIELD_WIDTH).as_str());
    heading.append(centered("Count", FIELD_WIDTH).as_str());
    heading.append(centered("Running", FIELD_WIDTH).as_str());
    heading.append(centered("Percent", FIELD_WIDTH).as_str());
    heading.append("\n");
    heading
}

/// A line of the table of time in the unit, as it is printed. The share of all
/// members that the running count stands for is not a whole number: the caller
/// writes it and hands it in as `percent`.
pub fn tenure_line(row: &TenureRow, percent: &str) -> (line: String)
    ensures
        line@ == tenure_line_text(*row, percent@),
{
    let mut line = centered(signed_decimal(row.months).as_str(), FIELD_WIDTH);
    line.append(centered(decimal(row.count as u64).as_str(), FIELD_WIDTH).as_str());
    line.append(centered(decimal(row.running as u64).as_str(), FIELD_WIDTH).as_str());
    line.append(percent);
    line.append(" ");
    line.append(bar(row.count).as_str());
    line.append("\n");
    assert(line@ =~= tenure_line_text(*row, percent@));
    line
}

/// For every member of the list, by number, whether the member is female: not
/// marked male. Where a number comes twice, the later entry stands.
pub open spec fn female_map(members: Seq<MemberListPerson>) -> Map<u64, bool>
    decreases members.len(),
{
    if members.len() == 0 {
        Map::empty()
    } else {
        female_map(members.drop_last()).insert(
            members.last().legacy_cmis_id,
            !marks_male(members.last().sex@),
        )
    }
}

/// Who of `members` is female, by the member's number.
pub fn females_by_id(members: &Vec<MemberListPerson>) -> (females: HashMap<u64, bool>)
    ensures
        females@ == female_map(members@),
{
    let mut females: HashMap<u64, bool> = HashMap::new();
    let mut i: usize = 0;
    while i < members.len()
        invariant
            i <= members.len(),
            females@ == female_map(members@.take(i as int)),
        decreases members.len() - i,
    {
        proof {
            assert(members@.take(i + 1).drop_last() =~= members@.take(i as int));
        }
        females.insert(members[i].legacy_cmis_id, !is_male(members[i].sex.as_str()));
        i = i + 1;
    }
    assert(members@.take(members.len() as int) =~= members@);
    females
}

/// What is printed of the names collected from the elders' assignments and of
/// those collected from the Relief Society's, which should agree: the names
/// that only the elders' hold, as those to remove, and the names that only the
/// Relief Society's hold, as those to add, each list under its heading, one
/// name to a line, and followed by an empty line.
pub open spec fn ministering_changes_text(elders: &NameSet, relief_society: &NameSet) -> Seq<char> {
    "Women to remove from ministering:\n"@ + joined_text(
        elders.missing_from(relief_society),
        "\t\n"@,
    ) + "\n\n"@ + "Women to add to ministering:\n"@ + joined_text(
        relief_society.missing_from(elders),
        "\t\n"@,
    ) + "\n\n"@
}

/// What is printed of the names collected from the elders' assignments and of
/// those collected from the Relief Society's.
pub fn ministering_changes(elders: &NameSet, relief_society: &NameSet) -> (report: String)
    ensures
        report@ == ministering_changes_text(elders, relief_society),
{
    let to_remove = elders.difference(relief_society);
    let to_add = relief_society.difference(elders);
    let mut report = String::from_str("Women to remove from ministering:\n");
    report.append(join_texts(&to_remove, "\t\n").as_str());
    report.append("\n\n");
    report.append("Women to add to ministering:\n");
    report.append(join_texts(&to_add, "\t\n").as_str());
    report.append("\n\n");
    report
}

} // verus!

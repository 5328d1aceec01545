//! The records that the reports are made of, and the names that the
//! ministering assignments contribute.
use vstd::prelude::*;
use std::collections::HashMap;
use crate::names::NameSet;

verus! {

/// Someone who recently left the unit.
#[derive(Debug)]
pub struct MovedOutPerson {
    pub name: String,
    pub move_date_display: String,
    pub next_unit_name: Option<String>,
}

/// Someone who recently joined the unit.
#[derive(Debug)]
pub struct MovedInPerson {
    pub name: String,
    pub move_date: String,
    pub prior_unit_name: Option<String>,
}

/// A postal address, line by line.
#[derive(Debug)]
pub struct Address {
    pub address_lines: Vec<String>,
}

/// One entry of the member list.
#[derive(Debug)]
pub struct MemberListPerson {
    pub address: Option<Address>,
    pub age: u8,
    pub convert: bool,
    pub email: Option<String>,
    pub phone_number: Option<String>,
    pub sex: String,
    pub legacy_cmis_id: u64,
    pub name_given_preferred_local: String,
    pub name_family_preferred_local: String,
    pub name_list_preferred_local: String,
}

/// One approved photo: whose it is, and where the picture is.
#[derive(Debug)]
pub struct PhotoInfo {
    pub spoken_name: String,
    pub image: Image,
}

/// Where a picture is found.
#[derive(Debug)]
pub struct Image {
    pub token_url: String,
}

/// A name and the picture shown beside it in the directory.
#[derive(Debug)]
pub struct VisualPerson {
    pub name: String,
    pub photo_url: String,
}

/// The profile of one member.
#[derive(Debug)]
pub struct MemberProfile {
    pub individual: MemberProfileIndividual,
}

/// The part of a profile that describes the person.
#[derive(Debug)]
pub struct MemberProfileIndividual {
    pub move_date: Option<String>,
    pub mrn: Option<String>,
    /// The number by which the member list knows the same person.
    pub id: u64,
    pub endowed: Option<bool>,
}

/// A calendar date, held as the number of its day in the Julian day count.
#[derive(Debug, Clone, Copy, PartialEq, Eq, Structural)]
pub struct Date {
    pub julian_day: i32,
}

/// The Julian day of the date that `time::Date::parse` reads from `text` as a
/// year, a month and a day written without anything between them, or `None`
/// where it reads no date.
pub uninterp spec fn parsed_move_day(text: Seq<char>) -> Option<i32>;

/// Reads a date with `time::Date::parse`, by the description
/// `[year][month][day]`, and gives its Julian day as `Date::to_julian_day`
/// counts it. Taken on trust from `time`: the result depends on `text` alone.
/// Which texts read as a date, and as which, is not stated here.
#[verifier::external_body]
fn parse_move_day(text: &str) -> (day: Option<i32>)
    ensures
        day == parsed_move_day(text@),
{
    let description = time::format_description::parse_borrowed::<1>("[year][month][day]").ok()?;
    match time::Date::parse(text, &description) {
        Ok(date) => Some(date.to_julian_day()),
        Err(_) => None,
    }
}

impl MemberProfileIndividual {
    /// The day on which the person moved into the unit, where the profile holds
    /// one that reads as a date.
    pub open spec fn moved_on(&self) -> Option<Date> {
        match self.move_date {
            Some(text) => match parsed_move_day(text@) {
                Some(day) => Some(Date { julian_day: day }),
                None => None,
            },
            None => None,
        }
    }

    /// The day on which the person moved into the unit, where the profile holds
    /// one that reads as a date.
    pub fn move_date(&self) -> (date: Option<Date>)
        ensures
            date == self.moved_on(),
    {
        match &self.move_date {
            Some(text) => match parse_move_day(text.as_str()) {
                Some(day) => Some(Date { julian_day: day }),
                None => None,
            },
            None => None,
        }
    }
}

/// Someone who ministers as part of a companionship.
#[derive(Debug)]
pub struct MinisteringCompanionship {
    pub name: String,
    pub legacy_cmis_id: u64,
}

/// Someone a companionship is assigned to.
#[derive(Debug)]
pub struct MinisteringAssignment {
    pub name: String,
    pub legacy_cmis_id: u64,
}

/// Whether the person numbered `id` counts as female: as `females_by_id` says,
/// and yes where it does not know the person.
pub open spec fn counts_as_female(females_by_id: Map<u64, bool>, id: u64) -> bool {
    females_by_id.contains_key(id) ==> females_by_id[id]
}

/// Whether the name of the person numbered `id` is collected.
pub open spec fn is_collected(only_females: bool, females_by_id: Map<u64, bool>, id: u64) -> bool {
    !only_females || counts_as_female(females_by_id, id)
}

/// The collected names among the first `upto` of `ministers`.
pub open spec fn minister_names(
    ministers: Seq<MinisteringCompanionship>,
    upto: int,
    only_females: bool,
    females_by_id: Map<u64, bool>,
) -> Set<Seq<char>> {
    Set::new(
        |name: Seq<char>|
            exists|i: int|
                0 <= i < upto && i < ministers.len() && is_collected(
                    only_females,
                    females_by_id,
                    (#[trigger] ministers[i]).legacy_cmis_id,
                ) && ministers[i].name@ == name,
    )
}

/// The collected names among the first `upto` of `assignments`.
pub open spec fn assignment_names(
    assignments: Seq<MinisteringAssignment>,
    upto: int,
    only_females: bool,
    females_by_id: Map<u64, bool>,
) -> Set<Seq<char>> {
    Set::new(
        |name: Seq<char>|
            exists|i: int|
                0 <= i < upto && i < assignments.len() && is_collected(
                    only_females,
                    females_by_id,
                    (#[trigger] assignments[i]).legacy_cmis_id,
                ) && assignments[i].name@ == name,
    )
}

/// The collected names of the first `upto` of `companionships`.
pub open spec fn companionship_names(
    companionships: Seq<Companionship>,
    upto: int,
    only_females: bool,
    females_by_id: Map<u64, bool>,
) -> Set<Seq<char>> {
    Set::new(
        |name: Seq<char>|
            exists|i: int|
                0 <= i < upto && i < companionships.len() && (#[trigger] companionships[i]).names(
                    only_females,
                    females_by_id,
                ).contains(name),
    )
}

/// The collected names of the first `upto` of `groups`.
pub open spec fn group_names(
    groups: Seq<QuorumOrClass>,
    upto: int,
    only_females: bool,
    females_by_id: Map<u64, bool>,
) -> Set<Seq<char>> {
    Set::new(
        |name: Seq<char>|
            exists|i: int|
                0 <= i < upto && i < groups.len() && (#[trigger] groups[i]).names(
                    only_females,
                    females_by_id,
                ).contains(name),
    )
}

fn is_female(females_by_id: &HashMap<u64, bool>, id: u64) -> (female: bool)
    ensures
        female == counts_as_female(females_by_id@, id),
{
    match females_by_id.get(&id) {
        Some(known) => *known,
        None => true,
    }
}

/// Those who minister together, and those they are assigned to.
#[derive(Debug)]
pub struct Companionship {
    pub ministers: Vec<MinisteringCompanionship>,
    pub assignments: Option<Vec<MinisteringAssignment>>,
}

impl Companionship {
    /// The names this companionship contributes: those of its ministers and of
    /// the people assigned to it, each only if it is collected.
    pub open spec fn names(&self, only_females: bool, females_by_id: Map<u64, bool>) -> Set<
        Seq<char>,
    > {
        minister_names(
            self.ministers@,
            self.ministers@.len() as int,
            only_females,
            females_by_id,
        ).union(
            match self.assignments {
                Some(assignments) => assignment_names(
                    assignments@,
                    assignments@.len() as int,
                    only_females,
                    females_by_id,
                ),
                None => Set::empty(),
            },
        )
    }

    /// Adds to `set` the names of this companionship. With `only_females`, a
    /// name is left out where `females_by_id` says that the person is not
    /// female; someone it does not know is taken to be female.
    pub fn collect_unique_names(
        &self,
        set: &mut NameSet,
        only_females: bool,
        females_by_id: &HashMap<u64, bool>,
    )
        ensures
            final(set)@ == old(set)@.union(self.names(only_females, females_by_id@)),
    {
        let mut i: usize = 0;
        while i < self.ministers.len()
            invariant
                i <= self.ministers.len(),
                set@ == old(set)@.union(
                    minister_names(self.ministers@, i as int, only_females, females_by_id@),
                ),
            decreases self.ministers.len() - i,
        {
            let minister = &self.ministers[i];
            let ghost before = set@;
            if !only_females || is_female(females_by_id, minister.legacy_cmis_id) {
                set.insert(minister.name.clone());
            }
            assert(set@ =~= old(set)@.union(
                minister_names(self.ministers@, i + 1, only_females, females_by_id@),
            )) by {
                let earlier = minister_names(
                    self.ministers@,
                    i as int,
                    only_females,
                    females_by_id@,
                );
                let now = minister_names(self.ministers@, i + 1, only_females, females_by_id@);
                assert forall|name: Seq<char>| earlier.contains(name) implies now.contains(
                    name,
                ) by {
                    let j = choose|j: int|
                        0 <= j < i && j < self.ministers@.len() && is_collected(
                            only_females,
                            females_by_id@,
                            (#[trigger] self.ministers@[j]).legacy_cmis_id,
                        ) && self.ministers@[j].name@ == name;
                    assert(self.ministers@[j].name@ == name);
                }
                assert forall|name: Seq<char>| now.contains(name) implies earlier.contains(name)
                    || (name == minister.name@ && is_collected(
                    only_females,
                    females_by_id@,
                    minister.legacy_cmis_id,
                )) by {
                    let j = choose|j: int|
                        0 <= j < i + 1 && j < self.ministers@.len() && is_collected(
                            only_females,
                            females_by_id@,
                            (#[trigger] self.ministers@[j]).legacy_cmis_id,
                        ) && self.ministers@[j].name@ == name;
                    if j < i {
                        assert(self.ministers@[j].name@ == name);
                    }
                }
                if is_collected(only_females, females_by_id@, minister.legacy_cmis_id) {
                    assert(self.ministers@[i as int].name@ == minister.name@);
                    assert(now.contains(minister.name@));
                }
            }
            i = i + 1;
        }
        let ghost with_ministers = set@;
        match &self.assignments {
            Some(assignments) => {
                let mut k: usize = 0;
                while k < assignments.len()
                    invariant
                        k <= assignments.len(),
                                set@ == with_ministers.union(
                            assignment_names(
                                assignments@,
                                k as int,
                                only_females,
                                females_by_id@,
                            ),
                        ),
                    decreases assignments.len() - k,
                {
                    let assignment = &assignments[k];
                    if !only_females || is_female(females_by_id, assignment.legacy_cmis_id) {
                        set.insert(assignment.name.clone());
                    }
                    assert(set@ =~= with_ministers.union(
                        assignment_names(assignments@, k + 1, only_females, females_by_id@),
                    )) by {
                        let earlier = assignment_names(
                            assignments@,
                            k as int,
                            only_females,
                            females_by_id@,
                        );
                        let now = assignment_names(
                            assignments@,
                            k + 1,
                            only_females,
                            females_by_id@,
                        );
                        assert forall|name: Seq<char>| earlier.contains(
                            name,
                        ) implies now.contains(name) by {
                            let j = choose|j: int|
                                0 <= j < k && j < assignments@.len() && is_collected(
                                    only_females,
                                    females_by_id@,
                                    (#[trigger] assignments@[j]).legacy_cmis_id,
                                ) && assignments@[j].name@ == name;
                            assert(assignments@[j].name@ == name);
                        }
                        assert forall|name: Seq<char>| now.contains(
                            name,
                        ) implies earlier.contains(name) || (name == assignment.name@
                            && is_collected(
                            only_females,
                            females_by_id@,
                            assignment.legacy_cmis_id,
                        )) by {
                            let j = choose|j: int|
                                0 <= j < k + 1 && j < assignments@.len() && is_collected(
                                    only_females,
                                    females_by_id@,
                                    (#[trigger] assignments@[j]).legacy_cmis_id,
                                ) && assignments@[j].name@ == name;
                            if j < k {
                                assert(assignments@[j].name@ == name);
                            }
                        }
                        if is_collected(only_females, females_by_id@, assignment.legacy_cmis_id) {
                            assert(assignments@[k as int].name@ == assignment.name@);
                            assert(now.contains(assignment.name@));
                        }
                    }
                    k = k + 1;
                }
            },
            None => {},
        }
        assert(set@ =~= old(set)@.union(self.names(only_females, females_by_id@)));
    }
}

/// A quorum or a class: the companionships organised in it.
#[derive(Debug)]
pub struct QuorumOrClass {
    pub companionships: Vec<Companionship>,
}

impl QuorumOrClass {
    /// The names that the companionships of this group contribute.
    pub open spec fn names(&self, only_females: bool, females_by_id: Map<u64, bool>) -> Set<
        Seq<char>,
    > {
        companionship_names(
            self.companionships@,
            self.companionships@.len() as int,
            only_females,
            females_by_id,
        )
    }

    /// Adds to `set` the names of every companionship of this group.
    pub fn collect_unique_names(
        &self,
        set: &mut NameSet,
        only_females: bool,
        females_by_id: &HashMap<u64, bool>,
    )
        ensures
            final(set)@ == old(set)@.union(self.names(only_females, females_by_id@)),
    {
        let mut i: usize = 0;
        while i < self.companionships.len()
            invariant
                i <= self.companionships.len(),
                set@ == old(set)@.union(
                    companionship_names(
                        self.companionships@,
                        i as int,
                        only_females,
                        females_by_id@,
                    ),
                ),
            decreases self.companionships.len() - i,
        {
            let companionship = &self.companionships[i];
            companionship.collect_unique_names(set, only_females, females_by_id);
            assert(set@ =~= old(set)@.union(
                companionship_names(
                    self.companionships@,
                    i + 1,
                    only_females,
                    females_by_id@,
                ),
            )) by {
                let earlier = companionship_names(
                    self.companionships@,
                    i as int,
                    only_females,
                    females_by_id@,
                );
                let now = companionship_names(
                    self.companionships@,
                    i + 1,
                    only_females,
                    females_by_id@,
                );
                let added = companionship.names(only_females, females_by_id@);
                assert forall|name: Seq<char>| earlier.contains(name) implies now.contains(
                    name,
                ) by {
                    let j = choose|j: int|
                        0 <= j < i && j < self.companionships@.len() && (
                        #[trigger] self.companionships@[j]).names(
                            only_females,
                            females_by_id@,
                        ).contains(name);
                    assert(self.companionships@[j].names(only_females, females_by_id@).contains(
                        name,
                    ));
                }
                assert forall|name: Seq<char>| now.contains(name) implies earlier.contains(name)
                    || added.contains(name) by {
                    let j = choose|j: int|
                        0 <= j < i + 1 && j < self.companionships@.len() && (
                        #[trigger] self.companionships@[j]).names(
                            only_females,
                            females_by_id@,
                        ).contains(name);
                    if j < i {
                        assert(self.companionships@[j].names(
                            only_females,
                            females_by_id@,
                        ).contains(name));
                    }
                }
                assert forall|name: Seq<char>| added.contains(name) implies now.contains(
                    name,
                ) by {
                    assert(self.companionships@[i as int].names(
                        only_females,
                        females_by_id@,
                    ).contains(name));
                }
            }
            i = i + 1;
        }
    }
}

fn collect_group_names(
    groups: &Vec<QuorumOrClass>,
    set: &mut NameSet,
    only_females: bool,
    females_by_id: &HashMap<u64, bool>,
)
    ensures
        final(set)@ == old(set)@.union(
            group_names(groups@, groups@.len() as int, only_females, females_by_id@),
        ),
{
    let mut i: usize = 0;
    while i < groups.len()
        invariant
            i <= groups.len(),
            set@ == old(set)@.union(group_names(groups@, i as int, only_females, females_by_id@)),
        decreases groups.len() - i,
    {
        let group = &groups[i];
        group.collect_unique_names(set, only_females, females_by_id);
        assert(set@ =~= old(set)@.union(
            group_names(groups@, i + 1, only_females, females_by_id@),
        )) by {
            let earlier = group_names(groups@, i as int, only_females, females_by_id@);
            let now = group_names(groups@, i + 1, only_females, females_by_id@);
            let added = group.names(only_females, females_by_id@);
            assert forall|name: Seq<char>| earlier.contains(name) implies now.contains(name) by {
                let j = choose|j: int|
                    0 <= j < i && j < groups@.len() && (#[trigger] groups@[j]).names(
                        only_females,
                        females_by_id@,
                    ).contains(name);
                assert(groups@[j].names(only_females, females_by_id@).contains(name));
            }
            assert forall|name: Seq<char>| now.contains(name) implies earlier.contains(name)
                || added.contains(name) by {
                let j = choose|j: int|
                    0 <= j < i + 1 && j < groups@.len() && (#[trigger] groups@[j]).names(
                        only_females,
                        females_by_id@,
                    ).contains(name);
                if j < i {
                    assert(groups@[j].names(only_females, females_by_id@).contains(name));
                }
            }
            assert forall|name: Seq<char>| added.contains(name) implies now.contains(name) by {
                assert(groups@[i as int].names(only_females, females_by_id@).contains(name));
            }
        }
        i = i + 1;
    }
}

/// The ministering assignments of the Relief Society, class by class.
#[derive(Debug)]
pub struct RSMinisteringAssignments {
    pub relief_society: Vec<QuorumOrClass>,
}

impl RSMinisteringAssignments {
    /// The names that the classes contribute.
    pub open spec fn names(&self, only_females: bool, females_by_id: Map<u64, bool>) -> Set<
        Seq<char>,
    > {
        group_names(
            self.relief_society@,
            self.relief_society@.len() as int,
            only_females,
            females_by_id,
        )
    }

    /// Adds to `set` the names of every companionship of every class.
    pub fn collect_unique_names(
        &self,
        set: &mut NameSet,
        only_females: bool,
        females_by_id: &HashMap<u64, bool>,
    )
        ensures
            final(set)@ == old(set)@.union(self.names(only_females, females_by_id@)),
    {
        collect_group_names(&self.relief_society, set, only_females, females_by_id);
    }
}

/// The ministering assignments of the elders, quorum by quorum.
#[derive(Debug)]
pub struct EQMinisteringAssignments {
    pub elders: Vec<QuorumOrClass>,
}

impl EQMinisteringAssignments {
    /// The names that the quorums contribute.
    pub open spec fn names(&self, only_females: bool, females_by_id: Map<u64, bool>) -> Set<
        Seq<char>,
    > {
        group_names(self.elders@, self.elders@.len() as int, only_females, females_by_id)
    }

    /// Adds to `set` the names of every companionship of every quorum.
    pub fn collect_unique_names(
        &self,
        set: &mut NameSet,
        only_females: bool,
        females_by_id: &HashMap<u64, bool>,
    )
        ensures
            final(set)@ == old(set)@.union(self.names(only_females, females_by_id@)),
    {
        collect_group_names(&self.elders, set, only_females, females_by_id);
    }
}

} // verus!

//! The team of a project.

use crate::ids::id_text;
use crate::ids::id_to_text;
use crate::ids::parse_id;
use crate::ids::parsed_id;
use crate::lists::filter_all;
use crate::lists::filter_step;
use crate::money::cents_text;
use crate::money::format_cents_plain;
use crate::new_project::fields::ProjectFormField;
use crate::new_project::form::BudgetMode;
use crate::new_project::form::ProjectForm;
use crate::new_project::form::ProjectMemberInput;
use crate::new_project::form::ProjectTaskInput;
use crate::new_project::form::RateMode;
use crate::new_project::form::TaskAccess;
use crate::new_project::tasks::not_id;
use crate::new_project::tasks::without_id;
use crate::projects::budget::ProjectType;
use crate::text::same;
use std::collections::HashSet;
use vstd::prelude::*;

verus! {

/// The most people that a project has.
pub const TEAM_LIMIT: usize = 500;

/// A person who can be chosen.
#[derive(Debug)]
pub struct CreationPerson {
    pub id: u128,
    pub name: String,
    pub billable_rate_cents: Option<i64>,
    pub cost_rate_cents: Option<i64>,
}

impl Clone for CreationPerson {
    fn clone(&self) -> (copy: Self)
        ensures
            copy == *self,
    {
        CreationPerson {
            id: self.id,
            name: self.name.clone(),
            billable_rate_cents: self.billable_rate_cents,
            cost_rate_cents: self.cost_rate_cents,
        }
    }
}

/// The identities of a team.
pub open spec fn member_ids(team: Seq<ProjectMemberInput>) -> Seq<u128> {
    team.map_values(|member: ProjectMemberInput| member.user_id)
}

/// The identities of people.
pub open spec fn person_ids(people: Seq<CreationPerson>) -> Seq<u128> {
    people.map_values(|person: CreationPerson| person.id)
}

/// The identities among `ids` that a team lacks, each where it first stands.
pub open spec fn lacking(team: Seq<u128>, ids: Seq<u128>) -> Seq<u128>
    decreases ids.len(),
{
    if ids.len() == 0 {
        Seq::empty()
    } else {
        let before = lacking(team, ids.drop_last());
        if team.contains(ids.last()) || ids.drop_last().contains(ids.last()) {
            before
        } else {
            before.push(ids.last())
        }
    }
}

/// Whether a person is in a team as they are when they were just added.
pub open spec fn is_newcomer(member: ProjectMemberInput, id: u128) -> bool {
    &&& member.user_id == id
    &&& !member.manager
    &&& member.billable_rate@.len() == 0
    &&& member.cost_rate@.len() == 0
    &&& member.budget@.len() == 0
}

/// Whether a team is the one before with the given people at its end.
pub open spec fn joined(
    before: Seq<ProjectMemberInput>,
    ids: Seq<u128>,
    after: Seq<ProjectMemberInput>,
) -> bool {
    &&& after.len() == before.len() + ids.len()
    &&& forall|i: int| 0 <= i < before.len() ==> #[trigger] after[i] == before[i]
    &&& forall|i: int|
        before.len() <= i < after.len() ==> is_newcomer(
            #[trigger] after[i],
            ids[i - before.len()],
        )
}

fn lacking_ids(team: &Vec<ProjectMemberInput>, people: &[CreationPerson]) -> (ids: Vec<u128>)
    ensures
        ids@ == lacking(member_ids(team@), person_ids(people@)),
{
    broadcast use vstd::std_specs::hash::group_hash_axioms;

    let mut known: HashSet<u128> = HashSet::new();
    let mut i: usize = 0;
    let ghost team_ids = member_ids(team@);
    let ghost all = person_ids(people@);
    while i < team.len()
        invariant
            i <= team.len(),
            team_ids == member_ids(team@),
            forall|id: u128| #[trigger]
                known@.contains(id) <==> team_ids.take(i as int).contains(id),
        decreases team.len() - i,
    {
        let id = team[i].user_id;
        let ghost before = known@;
        known.insert(id);
        proof {
            assert(team_ids.take(i + 1) =~= team_ids.take(i as int).push(id));
            assert forall|other: u128| #[trigger] known@.contains(other) <==> team_ids.take(
                i + 1,
            ).contains(other) by {
                contains_after_push(team_ids.take(i as int), id, other);
                assert(known@.contains(other) <==> before.contains(other) || other == id);
            }
        }
        i += 1;
    }
    proof {
        assert(team_ids.take(team.len() as int) =~= team_ids);
        assert(all.take(0) =~= Seq::<u128>::empty());
    }
    let mut ids: Vec<u128> = Vec::new();
    let mut k: usize = 0;
    while k < people.len()
        invariant
            k <= people.len(),
            team_ids == member_ids(team@),
            all == person_ids(people@),
            forall|id: u128| #[trigger]
                known@.contains(id) <==> team_ids.contains(id) || all.take(k as int).contains(id),
            ids@ == lacking(team_ids, all.take(k as int)),
        decreases people.len() - k,
    {
        let id = people[k].id;
        let ghost before = known@;
        let ghost upto = all.take(k + 1);
        proof {
            assert(upto.drop_last() =~= all.take(k as int));
            assert(upto.last() == id);
            assert(upto =~= all.take(k as int).push(id));
        }
        let fresh = known.insert(id);
        if fresh {
            ids.push(id);
        }
        proof {
            assert forall|other: u128| #[trigger] known@.contains(other) <==> team_ids.contains(
                other,
            ) || upto.contains(other) by {
                contains_after_push(all.take(k as int), id, other);
                assert(known@.contains(other) <==> before.contains(other) || other == id);
            }
        }
        k += 1;
    }
    proof {
        assert(all.take(people.len() as int) =~= all);
    }
    ids
}

proof fn contains_after_push(ids: Seq<u128>, id: u128, other: u128)
    ensures
        ids.push(id).contains(other) <==> ids.contains(other) || other == id,
{
    let more = ids.push(id);
    if ids.contains(other) {
        let i = choose|i: int| 0 <= i < ids.len() && ids[i] == other;
        assert(more[i] == other);
    }
    assert(more[ids.len() as int] == id);
    if more.contains(other) {
        let i = choose|i: int| 0 <= i < more.len() && more[i] == other;
        if i < ids.len() {
            assert(ids[i] == other);
        }
    }
}

/// Adds people to a project who are not in it yet, or nobody where that would be too many.
pub fn add_members(form: &mut ProjectForm, people: &[CreationPerson]) -> (added: Result<
    (),
    &'static str,
>)
    ensures
        ({
            let ids = lacking(member_ids(old(form).team@), person_ids(people@));
            if old(form).team.len() + ids.len() > 500 {
                &&& added is Err
                &&& added->Err_0@ == "A project can have at most 500 people."@
                &&& *final(form) == *old(form)
            } else {
                &&& added is Ok
                &&& joined(old(form).team@, ids, final(form).team@)
                &&& *final(form) == (ProjectForm { team: final(form).team, ..*old(form) })
            }
        }),
{
    let ids = lacking_ids(&form.team, people);
    if form.team.len() > TEAM_LIMIT || ids.len() > TEAM_LIMIT - form.team.len() {
        return Err("A project can have at most 500 people.");
    }
    let mut i: usize = 0;
    let ghost before = form.team@;
    while i < ids.len()
        invariant
            i <= ids.len(),
            form.team.len() == before.len() + i,
            *form == (ProjectForm { team: form.team, ..*old(form) }),
            forall|k: int| 0 <= k < before.len() ==> #[trigger] form.team@[k] == before[k],
            forall|k: int|
                before.len() <= k < form.team.len() ==> is_newcomer(
                    #[trigger] form.team@[k],
                    ids@[k - before.len()],
                ),
        decreases ids.len() - i,
    {
        form.team.push(
            ProjectMemberInput {
                user_id: ids[i],
                manager: false,
                billable_rate: String::new(),
                cost_rate: String::new(),
                budget: String::new(),
            },
        );
        i += 1;
    }
    Ok(())
}

proof fn lacking_is_new(team: Seq<u128>, ids: Seq<u128>)
    ensures
        lacking(team, ids).no_duplicates(),
        forall|i: int|
            0 <= i < lacking(team, ids).len() ==> !team.contains(#[trigger] lacking(team, ids)[i])
                && ids.contains(lacking(team, ids)[i]),
    decreases ids.len(),
{
    if ids.len() > 0 {
        let rest = ids.drop_last();
        let before = lacking(team, rest);
        let now = lacking(team, ids);
        lacking_is_new(team, rest);
        assert forall|i: int| 0 <= i < now.len() implies !team.contains(#[trigger] now[i])
            && ids.contains(now[i]) by {
            if i < before.len() {
                assert(now[i] == before[i]);
                let k = choose|k: int| 0 <= k < rest.len() && rest[k] == before[i];
                assert(ids[k] == now[i]);
            } else {
                assert(ids[ids.len() - 1] == now[i]);
            }
        }
        assert forall|i: int, j: int| 0 <= i < j < now.len() implies now[i] != now[j] by {
            assert(now[i] == before[i]);
            if j == before.len() {
                assert(rest.contains(before[i]));
            } else {
                assert(now[j] == before[j]);
            }
        }
    }
}

/// A team in which nobody stands twice stays one when people join.
pub proof fn nobody_joins_twice(
    before: Seq<ProjectMemberInput>,
    people: Seq<CreationPerson>,
    after: Seq<ProjectMemberInput>,
)
    requires
        member_ids(before).no_duplicates(),
        joined(before, lacking(member_ids(before), person_ids(people)), after),
    ensures
        member_ids(after).no_duplicates(),
{
    let ids = lacking(member_ids(before), person_ids(people));
    lacking_is_new(member_ids(before), person_ids(people));
    let all = member_ids(after);
    assert forall|i: int, j: int| 0 <= i < j < all.len() implies all[i] != all[j] by {
        if j < before.len() {
            assert(after[i] == before[i] && after[j] == before[j]);
            assert(member_ids(before)[i] == all[i]);
            assert(member_ids(before)[j] == all[j]);
        } else if i < before.len() {
            assert(is_newcomer(after[j], ids[j - before.len()]));
            assert(after[i] == before[i]);
            assert(member_ids(before)[i] == all[i]);
            assert(member_ids(before).contains(all[i]));
            assert(all[j] == ids[j - before.len()]);
        } else {
            assert(is_newcomer(after[i], ids[i - before.len()]));
            assert(is_newcomer(after[j], ids[j - before.len()]));
            assert(all[i] == ids[i - before.len()]);
            assert(all[j] == ids[j - before.len()]);
        }
    }
}

proof fn all_known(team: Seq<u128>, ids: Seq<u128>)
    requires
        forall|i: int| 0 <= i < ids.len() ==> team.contains(#[trigger] ids[i]),
    ensures
        lacking(team, ids) == Seq::<u128>::empty(),
    decreases ids.len(),
{
    if ids.len() > 0 {
        let rest = ids.drop_last();
        assert forall|i: int| 0 <= i < rest.len() implies team.contains(#[trigger] rest[i]) by {
            assert(rest[i] == ids[i]);
        }
        all_known(team, rest);
        assert(team.contains(ids[ids.len() - 1]));
    }
}

/// Adding people who are all in a team already leaves it as it is.
pub proof fn members_do_not_join_again(
    before: Seq<ProjectMemberInput>,
    people: Seq<CreationPerson>,
    after: Seq<ProjectMemberInput>,
)
    requires
        forall|i: int|
            0 <= i < people.len() ==> member_ids(before).contains((#[trigger] people[i]).id),
        joined(before, lacking(member_ids(before), person_ids(people)), after),
    ensures
        after == before,
{
    let ids = person_ids(people);
    assert forall|i: int| 0 <= i < ids.len() implies member_ids(before).contains(
        #[trigger] ids[i],
    ) by {
        assert(ids[i] == people[i].id);
    }
    all_known(member_ids(before), ids);
    assert(after =~= before);
}

/// Whether a person stays in a team when one leaves it.
pub open spec fn stays(id: u128) -> spec_fn(ProjectMemberInput) -> bool {
    |member: ProjectMemberInput| member.user_id != id
}

/// Whether the access to a task is the one before without a person.
pub open spec fn access_without(before: TaskAccess, id: u128, after: TaskAccess) -> bool {
    match (before, after) {
        (TaskAccess::Everyone, TaskAccess::Everyone) => true,
        (
            TaskAccess::Restricted { user_ids: a },
            TaskAccess::Restricted { user_ids: b },
        ) => b@ == a@.filter(not_id(id)),
        _ => false,
    }
}

/// Whether tasks are those before, with the access without a person.
pub open spec fn tasks_without(
    before: Seq<ProjectTaskInput>,
    id: u128,
    after: Seq<ProjectTaskInput>,
) -> bool {
    &&& after.len() == before.len()
    &&& forall|i: int|
        #![trigger after[i]]
        0 <= i < before.len() ==> access_without(before[i].access, id, after[i].access) && after[i]
            == (ProjectTaskInput { access: after[i].access, ..before[i] })
}

/// Removes a person from a project, and from the access to its tasks. A restricted task
/// stays restricted, though nobody is left who can track to it.
pub fn remove_member(form: &mut ProjectForm, id: u128)
    ensures
        final(form).team@ == old(form).team@.filter(stays(id)),
        tasks_without(old(form).tasks@, id, final(form).tasks@),
        *final(form) == (ProjectForm {
            team: final(form).team,
            tasks: final(form).tasks,
            ..*old(form)
        }),
{
    let ghost team = form.team@;
    let ghost tasks = form.tasks@;
    let mut kept: Vec<ProjectMemberInput> = Vec::new();
    let mut i: usize = 0;
    proof {
        filter_all(team, stays(id));
    }
    while i < form.team.len()
        invariant
            i <= form.team.len(),
            *form == *old(form),
            form.team@ == team,
            kept@ == team.take(i as int).filter(stays(id)),
        decreases form.team.len() - i,
    {
        proof {
            filter_step(team, i as int, stays(id));
        }
        if form.team[i].user_id != id {
            kept.push(form.team[i].clone());
        }
        i += 1;
    }
    form.team = kept;
    let mut k: usize = 0;
    while k < form.tasks.len()
        invariant
            k <= form.tasks.len(),
            tasks == old(form).tasks@,
            form.team@ == team.filter(stays(id)),
            form.tasks.len() == tasks.len(),
            *form == (ProjectForm { team: form.team, tasks: form.tasks, ..*old(form) }),
            forall|j: int|
                #![trigger form.tasks@[j]]
                0 <= j < k ==> access_without(tasks[j].access, id, form.tasks@[j].access)
                    && form.tasks@[j] == (ProjectTaskInput {
                    access: form.tasks@[j].access,
                    ..tasks[j]
                }),
            forall|j: int| k <= j < tasks.len() ==> form.tasks@[j] == tasks[j],
        decreases form.tasks.len() - k,
    {
        let access = match &form.tasks[k].access {
            TaskAccess::Everyone => TaskAccess::Everyone,
            TaskAccess::Restricted { user_ids } => TaskAccess::Restricted {
                user_ids: without_id(user_ids, id),
            },
        };
        form.tasks[k].access = access;
        k += 1;
    }
}

/// Who was removed from a project is in no team and has access to no task by name.
pub proof fn removed_people_have_no_access(
    team: Seq<ProjectMemberInput>,
    before: Seq<ProjectTaskInput>,
    id: u128,
    after: Seq<ProjectTaskInput>,
)
    requires
        tasks_without(before, id, after),
    ensures
        !member_ids(team.filter(stays(id))).contains(id),
        forall|i: int|
            #![trigger after[i]]
            0 <= i < after.len() && after[i].access is Restricted ==> before[i].access
                is Restricted && !after[i].access->user_ids@.contains(id),
{
    broadcast use vstd::seq_lib::group_filter_ensures;

    let left = team.filter(stays(id));
    if member_ids(left).contains(id) {
        let i = choose|i: int| 0 <= i < left.len() && member_ids(left)[i] == id;
        assert(left[i].user_id == id);
        assert(left.contains(left[i]));
        assert(stays(id)(left[i]));
    }
    assert forall|i: int|
        #![trigger after[i]]
        0 <= i < after.len() && after[i].access is Restricted implies before[i].access is Restricted
        && !after[i].access->user_ids@.contains(id) by {
        let ids = before[i].access->user_ids@.filter(not_id(id));
        assert(after[i].access->user_ids@ == ids);
        if ids.contains(id) {
            assert(not_id(id)(id));
        }
    }
}

/// Whether no one of a catalog has an identity.
pub open spec fn nobody(catalog: Seq<CreationPerson>, id: u128) -> bool {
    forall|k: int| 0 <= k < catalog.len() ==> (#[trigger] catalog[k]).id != id
}

/// A catalog that knows people too.
pub open spec fn with_people(catalog: Seq<CreationPerson>, people: Seq<CreationPerson>) -> Seq<
    CreationPerson,
>
    decreases people.len(),
{
    if people.len() == 0 {
        catalog
    } else {
        let before = with_people(catalog, people.drop_last());
        if nobody(before, people.last().id) {
            before.push(people.last())
        } else {
            before
        }
    }
}

/// Whether the person at `i` is the first of a catalog with an identity.
pub open spec fn is_person(catalog: Seq<CreationPerson>, id: u128, i: int) -> bool {
    &&& 0 <= i < catalog.len()
    &&& catalog[i].id == id
    &&& forall|k: int| 0 <= k < i ==> (#[trigger] catalog[k]).id != id
}

/// The first person of a catalog with an identity.
pub fn find_person(catalog: &[CreationPerson], id: u128) -> (found: Option<usize>)
    ensures
        match found {
            Some(i) => is_person(catalog@, id, i as int) && !nobody(catalog@, id) && forall|
                k: int,
            | #[trigger]
                is_person(catalog@, id, k) ==> k == i,
            None => nobody(catalog@, id),
        },
{
    let mut i: usize = 0;
    while i < catalog.len()
        invariant
            i <= catalog.len(),
            forall|k: int| 0 <= k < i ==> (#[trigger] catalog@[k]).id != id,
        decreases catalog.len() - i,
    {
        if catalog[i].id == id {
            proof {
                assert forall|k: int| #[trigger] is_person(catalog@, id, k) implies k == i by {
                    if k < i {
                        assert(catalog@[k].id != id);
                    } else if i < k {
                        assert(catalog@[i as int].id != id);
                    }
                }
            }
            return Some(i);
        }
        i += 1;
    }
    None
}

/// Remembers people in a catalog.
pub fn remember_people(catalog: &mut Vec<CreationPerson>, people: &[CreationPerson])
    ensures
        final(catalog)@ == with_people(old(catalog)@, people@),
{
    let mut i: usize = 0;
    proof {
        assert(people@.take(0) =~= Seq::<CreationPerson>::empty());
    }
    while i < people.len()
        invariant
            i <= people.len(),
            catalog@ == with_people(old(catalog)@, people@.take(i as int)),
        decreases people.len() - i,
    {
        proof {
            let upto = people@.take(i + 1);
            assert(upto.drop_last() =~= people@.take(i as int));
            assert(upto.last() == people@[i as int]);
        }
        if find_person(catalog.as_slice(), people[i].id).is_none() {
            catalog.push(people[i].clone());
        }
        i += 1;
    }
    proof {
        assert(people@.take(people.len() as int) =~= people@);
    }
}

/// Gathering everyone who can be in a team, page by page.
#[derive(Debug)]
pub struct EveryoneSearch {
    pub found: Vec<CreationPerson>,
    pub offset: u32,
}

/// What follows a page of people.
#[derive(Clone, Copy, PartialEq, Eq, Structural, Debug)]
pub enum NextPage {
    /// There are more people than a project can have.
    TooMany,
    /// Everyone was found.
    Done,
    /// The next page is asked for.
    More { offset: u32 },
}

impl EveryoneSearch {
    /// A search that found nobody yet.
    pub fn new() -> (search: EveryoneSearch)
        ensures
            search.found@.len() == 0,
            search.offset == 0,
    {
        EveryoneSearch { found: Vec::new(), offset: 0 }
    }

    /// Takes a page of people, and says whether another follows.
    pub fn page(&mut self, people: Vec<CreationPerson>, more: bool) -> (next: NextPage)
        requires
            old(self).offset <= u32::MAX - 50,
        ensures
            final(self).found@ == old(self).found@ + people@,
            ({
                let many = old(self).found.len() + people.len() > 500;
                &&& next == (if many {
                    NextPage::TooMany
                } else if more {
                    NextPage::More { offset: (old(self).offset + 50) as u32 }
                } else {
                    NextPage::Done
                })
                &&& final(self).offset == (if many || !more {
                    old(self).offset as int
                } else {
                    old(self).offset + 50
                })
            }),
    {
        let mut people = people;
        self.found.append(&mut people);
        if self.found.len() > TEAM_LIMIT {
            return NextPage::TooMany;
        }
        if !more {
            return NextPage::Done;
        }
        self.offset = self.offset + 50;
        NextPage::More { offset: self.offset }
    }

    /// Takes everyone who was found into a project, and remembers them.
    pub fn finish(&self, form: &mut ProjectForm, catalog: &mut Vec<CreationPerson>) -> (added:
        Result<(), &'static str>)
        ensures
            ({
                let ids = lacking(member_ids(old(form).team@), person_ids(self.found@));
                if old(form).team.len() + ids.len() > 500 {
                    &&& added is Err
                    &&& added->Err_0@ == "A project can have at most 500 people."@
                    &&& *final(form) == *old(form)
                    &&& final(catalog)@ == old(catalog)@
                } else {
                    &&& added is Ok
                    &&& joined(old(form).team@, ids, final(form).team@)
                    &&& *final(form) == (ProjectForm { team: final(form).team, ..*old(form) })
                    &&& final(catalog)@ == with_people(old(catalog)@, self.found@)
                }
            }),
    {
        match add_members(form, self.found.as_slice()) {
            Ok(_) => {
                remember_people(catalog, self.found.as_slice());
                Ok(())
            },
            Err(message) => Err(message),
        }
    }
}

/// What people are told when a search for everyone finds too many.
pub fn too_many_people() -> (message: &'static str)
    ensures
        message@ == "A project can have at most 500 people. Select teammates individually."@,
{
    "A project can have at most 500 people. Select teammates individually."
}

/// What a person of a project is called.
pub fn member_name(id: u128, catalog: &[CreationPerson]) -> (name: String)
    ensures
        nobody(catalog@, id) ==> name@ == "Unavailable teammate ("@ + id_text(id) + ")"@,
        forall|i: int| #[trigger] is_person(catalog@, id, i) ==> name@ == catalog@[i].name@,
{
    match find_person(catalog, id) {
        Some(i) => catalog[i].name.clone(),
        None => {
            let mut name = "Unavailable teammate (".to_owned();
            name.append(id_to_text(id).as_str());
            name.append(")");
            name
        },
    }
}

/// The billable rate that an empty field stands for, as far as it is known in the project's
/// currency.
pub fn billable_placeholder(
    person: Option<&CreationPerson>,
    organization_currency: &str,
    billing_currency: &str,
) -> (placeholder: String)
    ensures
        placeholder@ == (match person {
            Some(person) => if organization_currency@ == billing_currency@
                && person.billable_rate_cents is Some {
                cents_text(person.billable_rate_cents->0 as int)
            } else {
                "Inherit"@
            },
            None => "Inherit"@,
        }),
{
    if let Some(person) = person {
        if same(organization_currency, billing_currency) {
            if let Some(cents) = person.billable_rate_cents {
                return format_cents_plain(cents);
            }
        }
    }
    "Inherit".to_owned()
}

/// The cost that an empty field stands for.
pub fn cost_placeholder(person: Option<&CreationPerson>) -> (placeholder: String)
    ensures
        placeholder@ == (match person {
            Some(person) => match person.cost_rate_cents {
                Some(cents) => cents_text(cents as int),
                None => "No rate"@,
            },
            None => "No rate"@,
        }),
{
    if let Some(person) = person {
        if let Some(cents) = person.cost_rate_cents {
            return format_cents_plain(cents);
        }
    }
    "No rate".to_owned()
}

/// Whether people of a project have billable rates of their own.
pub fn shows_person_rates(project_type: ProjectType, rate_mode: RateMode) -> (shown: bool)
    ensures
        shown == ((project_type == ProjectType::TimeAndMaterials && rate_mode == RateMode::Person)
            || rate_mode == RateMode::Legacy),
{
    (project_type == ProjectType::TimeAndMaterials && rate_mode == RateMode::Person) || rate_mode
        == RateMode::Legacy
}

/// Whether what is wrong stands in the row of a person.
pub fn member_has_error(field: Option<ProjectFormField>, id: u128) -> (wrong: bool)
    ensures
        wrong == (field == Some(ProjectFormField::Person(id)) || field == Some(
            ProjectFormField::PersonRate(id),
        ) || field == Some(ProjectFormField::CostRate(id)) || field == Some(
            ProjectFormField::PersonBudget(id),
        )),
{
    match field {
        Some(ProjectFormField::Person(row)) => row == id,
        Some(ProjectFormField::PersonRate(row)) => row == id,
        Some(ProjectFormField::CostRate(row)) => row == id,
        Some(ProjectFormField::PersonBudget(row)) => row == id,
        _ => false,
    }
}

/// Adds the person whose identity was picked, where they were found, and remembers them.
pub fn pick_person(
    form: &mut ProjectForm,
    catalog: &mut Vec<CreationPerson>,
    found: &Vec<CreationPerson>,
    value: &str,
) -> (added: Result<(), &'static str>)
    ensures
        match parsed_id(value@) {
            None => added is Ok && *final(form) == *old(form) && final(catalog)@ == old(catalog)@,
            Some(id) => {
                &&& nobody(found@, id) ==> {
                    &&& added is Ok
                    &&& *final(form) == *old(form)
                    &&& final(catalog)@ == old(catalog)@
                }
                &&& forall|i: int| #[trigger]
                    is_person(found@, id, i) ==> {
                        let one = seq![found@[i]];
                        let ids = lacking(member_ids(old(form).team@), person_ids(one));
                        if old(form).team.len() + ids.len() > 500 {
                            &&& added is Err
                            &&& added->Err_0@ == "A project can have at most 500 people."@
                            &&& *final(form) == *old(form)
                            &&& final(catalog)@ == old(catalog)@
                        } else {
                            &&& added is Ok
                            &&& joined(old(form).team@, ids, final(form).team@)
                            &&& *final(form) == (ProjectForm {
                                team: final(form).team,
                                ..*old(form)
                            })
                            &&& final(catalog)@ == with_people(old(catalog)@, one)
                        }
                    }
            },
        },
{
    match parse_id(value) {
        None => Ok(()),
        Some(id) => match find_person(found.as_slice(), id) {
            None => {
                proof {
                    assert forall|i: int| #[trigger] is_person(found@, id, i) implies false by {
                        assert(found@[i].id == id);
                    }
                }
                Ok(())
            },
            Some(i) => {
                let mut one: Vec<CreationPerson> = Vec::new();
                one.push(found[i].clone());
                proof {
                    assert(one@ =~= seq![found@[i as int]]);
                }
                match add_members(form, one.as_slice()) {
                    Ok(_) => {
                        remember_people(catalog, one.as_slice());
                        Ok(())
                    },
                    Err(message) => Err(message),
                }
            },
        },
    }
}

/// What can be changed in the row of a person.
#[derive(Debug)]
pub enum MemberEdit {
    ToggleManager,
    BillableRate { value: String },
    CostRate { value: String },
    Budget { value: String },
}

/// A person of a project after a change.
pub open spec fn edited(member: ProjectMemberInput, edit: MemberEdit) -> ProjectMemberInput {
    match edit {
        MemberEdit::ToggleManager => ProjectMemberInput { manager: !member.manager, ..member },
        MemberEdit::BillableRate { value } => ProjectMemberInput { billable_rate: value, ..member },
        MemberEdit::CostRate { value } => ProjectMemberInput { cost_rate: value, ..member },
        MemberEdit::Budget { value } => ProjectMemberInput { budget: value, ..member },
    }
}

/// Whether the person at `i` is the first of a team with an identity.
pub open spec fn is_member(team: Seq<ProjectMemberInput>, id: u128, i: int) -> bool {
    &&& 0 <= i < team.len()
    &&& team[i].user_id == id
    &&& forall|k: int| 0 <= k < i ==> (#[trigger] team[k]).user_id != id
}

/// Changes the first person of a team with an identity; where there is none, nothing
/// changes.
pub fn edit_member(team: &mut Vec<ProjectMemberInput>, id: u128, edit: MemberEdit)
    ensures
        final(team).len() == old(team).len(),
        forall|i: int|
            #![trigger final(team)@[i]]
            0 <= i < old(team).len() ==> final(team)@[i] == (if is_member(old(team)@, id, i) {
                edited(old(team)@[i], edit)
            } else {
                old(team)@[i]
            }),
{
    let mut i: usize = 0;
    while i < team.len()
        invariant
            i <= team.len(),
            team@ == old(team)@,
            forall|k: int| 0 <= k < i ==> (#[trigger] team@[k]).user_id != id,
        decreases team.len() - i,
    {
        if team[i].user_id == id {
            proof {
                assert forall|k: int| #[trigger] is_member(team@, id, k) implies k == i by {
                    if k < i {
                        assert(team@[k].user_id != id);
                    } else if i < k {
                        assert(team@[i as int].user_id != id);
                    }
                }
                assert(is_member(team@, id, i as int));
            }
            match edit {
                MemberEdit::ToggleManager => {
                    let manager = team[i].manager;
                    team[i].manager = !manager;
                },
                MemberEdit::BillableRate { value } => {
                    team[i].billable_rate = value;
                },
                MemberEdit::CostRate { value } => {
                    team[i].cost_rate = value;
                },
                MemberEdit::Budget { value } => {
                    team[i].budget = value;
                },
            }
            return ;
        }
        i += 1;
    }
}

/// Whether people of a project have budgets of their own.
pub fn shows_person_budgets(mode: BudgetMode) -> (shown: bool)
    ensures
        shown == (mode == BudgetMode::HoursPerPerson),
{
    mode == BudgetMode::HoursPerPerson
}

/// What someone is in a project.
pub fn member_role(manager: bool) -> (role: &'static str)
    ensures
        role@ == (if manager {
            "Project manager"@
        } else {
            "Project member"@
        }),
{
    if manager {
        "Project manager"
    } else {
        "Project member"
    }
}

/// What is said below someone's row of the error that is theirs. Someone who is not there any
/// more has to be replaced.
pub fn member_error(
    field: Option<ProjectFormField>,
    message: &Option<String>,
    id: u128,
) -> (text: Option<String>)
    ensures
        text is Some <==> (field == Some(ProjectFormField::Person(id)) || field == Some(
            ProjectFormField::PersonRate(id),
        ) || field == Some(ProjectFormField::CostRate(id)) || field == Some(
            ProjectFormField::PersonBudget(id),
        )),
        text is Some ==> text->0@ == (match message {
            Some(message) => message@,
            None => Seq::empty(),
        }) + (if field == Some(ProjectFormField::Person(id)) {
            " Remove this person and select an available teammate below."@
        } else {
            Seq::empty()
        }),
{
    if !member_has_error(field, id) {
        return None;
    }
    let mut text = match message {
        Some(message) => message.clone(),
        None => String::new(),
    };
    if field == Some(ProjectFormField::Person(id)) {
        text.append(" Remove this person and select an available teammate below.");
    }
    proof {
        assert(text@ =~= text@ + Seq::<char>::empty());
    }
    Some(text)
}

} // verus!

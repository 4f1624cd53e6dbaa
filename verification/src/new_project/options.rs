//! The choices of a project's form, with those that a saved project needs.

use crate::lists::filter_all;
use crate::lists::filter_step;
use crate::new_project::basics::find_client;
use crate::new_project::basics::no_client;
use crate::new_project::basics::CreationClient;
use crate::new_project::form::ProjectForm;
use crate::new_project::form::ProjectMemberInput;
use crate::new_project::form::ProjectTaskInput;
use crate::new_project::form::TaskSource;
use crate::new_project::tasks::find_task;
use crate::new_project::tasks::no_task;
use crate::new_project::tasks::CreationTask;
use crate::new_project::team::find_person;
use crate::new_project::team::nobody;
use crate::new_project::team::CreationPerson;
use vstd::prelude::*;

verus! {

/// What can be chosen in a project's form.
#[derive(Debug)]
pub struct CreationOptions {
    pub clients: Vec<CreationClient>,
    pub tasks: Vec<CreationTask>,
    pub people: Vec<CreationPerson>,
}

/// The task of the catalog that a project's task is and that the choices lack.
pub open spec fn lacked_task(catalog: Seq<CreationTask>, task: ProjectTaskInput) -> Option<u128> {
    match task.source {
        TaskSource::Existing { task_id } => if no_task(catalog, task_id) {
            Some(task_id)
        } else {
            None
        },
        TaskSource::New { .. } => None,
    }
}

/// The tasks of the catalog that a project has and that the choices lack, in its order.
pub open spec fn lacked_tasks(catalog: Seq<CreationTask>, tasks: Seq<ProjectTaskInput>) -> Seq<u128>
    decreases tasks.len(),
{
    if tasks.len() == 0 {
        Seq::empty()
    } else {
        let before = lacked_tasks(catalog, tasks.drop_last());
        match lacked_task(catalog, tasks.last()) {
            Some(id) => before.push(id),
            None => before,
        }
    }
}

/// The people of a project that the choices lack, in its order.
pub open spec fn lacked_people(
    catalog: Seq<CreationPerson>,
    team: Seq<ProjectMemberInput>,
) -> Seq<u128>
    decreases team.len(),
{
    if team.len() == 0 {
        Seq::empty()
    } else {
        let before = lacked_people(catalog, team.drop_last());
        if nobody(catalog, team.last().user_id) {
            before.push(team.last().user_id)
        } else {
            before
        }
    }
}

/// What the choices lack of a project.
#[derive(Debug)]
pub struct Missing {
    pub client: Option<u128>,
    pub tasks: Vec<u128>,
    pub people: Vec<u128>,
}

impl CreationOptions {
    /// What the choices lack of what a form holds.
    pub fn missing(&self, form: &ProjectForm) -> (missing: Missing)
        ensures
            missing.client == (match form.client_id {
                Some(id) => if no_client(self.clients@, id) {
                    Some(id)
                } else {
                    None
                },
                None => None,
            }),
            missing.tasks@ == lacked_tasks(self.tasks@, form.tasks@),
            missing.people@ == lacked_people(self.people@, form.team@),
    {
        let client = match form.client_id {
            Some(id) => match find_client(&self.clients, id) {
                Some(i) => {
                    proof {
                        assert(self.clients@[i as int].id == id);
                    }
                    None
                },
                None => Some(id),
            },
            None => None,
        };
        let mut tasks: Vec<u128> = Vec::new();
        let mut i: usize = 0;
        proof {
            assert(form.tasks@.take(0) =~= Seq::<ProjectTaskInput>::empty());
            assert(form.team@.take(0) =~= Seq::<ProjectMemberInput>::empty());
        }
        while i < form.tasks.len()
            invariant
                i <= form.tasks.len(),
                tasks@ == lacked_tasks(self.tasks@, form.tasks@.take(i as int)),
            decreases form.tasks.len() - i,
        {
            proof {
                assert(form.tasks@.take(i + 1).drop_last() =~= form.tasks@.take(i as int));
            }
            if let TaskSource::Existing { task_id } = &form.tasks[i].source {
                if find_task(&self.tasks, *task_id).is_none() {
                    tasks.push(*task_id);
                }
            }
            i += 1;
        }
        let mut people: Vec<u128> = Vec::new();
        let mut k: usize = 0;
        while k < form.team.len()
            invariant
                k <= form.team.len(),
                people@ == lacked_people(self.people@, form.team@.take(k as int)),
            decreases form.team.len() - k,
        {
            proof {
                assert(form.team@.take(k + 1).drop_last() =~= form.team@.take(k as int));
            }
            let id = form.team[k].user_id;
            if find_person(self.people.as_slice(), id).is_none() {
                people.push(id);
            }
            k += 1;
        }
        proof {
            assert(form.tasks@.take(form.tasks.len() as int) =~= form.tasks@);
            assert(form.team@.take(form.team.len() as int) =~= form.team@);
        }
        Missing { client, tasks, people }
    }

    /// Adds what the choices lacked.
    pub fn extend(
        &mut self,
        client: Option<CreationClient>,
        tasks: Vec<CreationTask>,
        people: Vec<CreationPerson>,
    )
        ensures
            final(self).clients@ == (match client {
                Some(client) => old(self).clients@.push(client),
                None => old(self).clients@,
            }),
            final(self).tasks@ == old(self).tasks@ + tasks@,
            final(self).people@ == old(self).people@ + people@,
    {
        if let Some(client) = client {
            self.clients.push(client);
        }
        let mut tasks = tasks;
        self.tasks.append(&mut tasks);
        let mut people = people;
        self.people.append(&mut people);
    }

    /// Puts what a project has in place of what the choices know of it.
    pub fn replace(
        &mut self,
        client: CreationClient,
        tasks: &Vec<CreationTask>,
        people: &Vec<CreationPerson>,
    )
        ensures
            final(self).clients@ == old(self).clients@.filter(other_client(client.id)).push(client),
            final(self).tasks@ == replaced_tasks(old(self).tasks@, tasks@),
            final(self).people@ == replaced_people(old(self).people@, people@),
    {
        let mut clients = other_clients(&self.clients, client.id);
        clients.push(client);
        self.clients = clients;
        let mut i: usize = 0;
        proof {
            assert(tasks@.take(0) =~= Seq::<CreationTask>::empty());
            assert(people@.take(0) =~= Seq::<CreationPerson>::empty());
        }
        while i < tasks.len()
            invariant
                i <= tasks.len(),
                self.clients@ == old(self).clients@.filter(other_client(client.id)).push(client),
                self.tasks@ == replaced_tasks(old(self).tasks@, tasks@.take(i as int)),
                self.people@ == old(self).people@,
            decreases tasks.len() - i,
        {
            proof {
                assert(tasks@.take(i + 1).drop_last() =~= tasks@.take(i as int));
            }
            let mut others = other_tasks(&self.tasks, tasks[i].id);
            others.push(tasks[i].clone());
            self.tasks = others;
            i += 1;
        }
        let mut k: usize = 0;
        while k < people.len()
            invariant
                k <= people.len(),
                self.clients@ == old(self).clients@.filter(other_client(client.id)).push(client),
                self.tasks@ == replaced_tasks(old(self).tasks@, tasks@.take(tasks.len() as int)),
                self.people@ == replaced_people(old(self).people@, people@.take(k as int)),
            decreases people.len() - k,
        {
            proof {
                assert(people@.take(k + 1).drop_last() =~= people@.take(k as int));
            }
            let mut others = other_people(&self.people, people[k].id);
            others.push(people[k].clone());
            self.people = others;
            k += 1;
        }
        proof {
            assert(tasks@.take(tasks.len() as int) =~= tasks@);
            assert(people@.take(people.len() as int) =~= people@);
        }
    }
}

/// Whether a client is another than the one with an identity.
pub open spec fn other_client(id: u128) -> spec_fn(CreationClient) -> bool {
    |client: CreationClient| client.id != id
}

/// Whether a task is another than the one with an identity.
pub open spec fn other_task(id: u128) -> spec_fn(CreationTask) -> bool {
    |task: CreationTask| task.id != id
}

/// Whether a person is another than the one with an identity.
pub open spec fn other_person(id: u128) -> spec_fn(CreationPerson) -> bool {
    |person: CreationPerson| person.id != id
}

/// Tasks with given ones in place of those of the same identities, at the end.
pub open spec fn replaced_tasks(known: Seq<CreationTask>, tasks: Seq<CreationTask>) -> Seq<
    CreationTask,
>
    decreases tasks.len(),
{
    if tasks.len() == 0 {
        known
    } else {
        replaced_tasks(known, tasks.drop_last()).filter(other_task(tasks.last().id)).push(
            tasks.last(),
        )
    }
}

/// People with given ones in place of those of the same identities, at the end.
pub open spec fn replaced_people(known: Seq<CreationPerson>, people: Seq<CreationPerson>) -> Seq<
    CreationPerson,
>
    decreases people.len(),
{
    if people.len() == 0 {
        known
    } else {
        replaced_people(known, people.drop_last()).filter(other_person(people.last().id)).push(
            people.last(),
        )
    }
}

fn other_clients(known: &Vec<CreationClient>, id: u128) -> (others: Vec<CreationClient>)
    ensures
        others@ == known@.filter(other_client(id)),
{
    let mut others: Vec<CreationClient> = Vec::new();
    let mut i: usize = 0;
    proof {
        filter_all(known@, other_client(id));
    }
    while i < known.len()
        invariant
            i <= known.len(),
            others@ == known@.take(i as int).filter(other_client(id)),
        decreases known.len() - i,
    {
        proof {
            filter_step(known@, i as int, other_client(id));
        }
        if known[i].id != id {
            others.push(known[i].clone());
        }
        i += 1;
    }
    others
}

fn other_tasks(known: &Vec<CreationTask>, id: u128) -> (others: Vec<CreationTask>)
    ensures
        others@ == known@.filter(other_task(id)),
{
    let mut others: Vec<CreationTask> = Vec::new();
    let mut i: usize = 0;
    proof {
        filter_all(known@, other_task(id));
    }
    while i < known.len()
        invariant
            i <= known.len(),
            others@ == known@.take(i as int).filter(other_task(id)),
        decreases known.len() - i,
    {
        proof {
            filter_step(known@, i as int, other_task(id));
        }
        if known[i].id != id {
            others.push(known[i].clone());
        }
        i += 1;
    }
    others
}

fn other_people(known: &Vec<CreationPerson>, id: u128) -> (others: Vec<CreationPerson>)
    ensures
        others@ == known@.filter(other_person(id)),
{
    let mut others: Vec<CreationPerson> = Vec::new();
    let mut i: usize = 0;
    proof {
        filter_all(known@, other_person(id));
    }
    while i < known.len()
        invariant
            i <= known.len(),
            others@ == known@.take(i as int).filter(other_person(id)),
        decreases known.len() - i,
    {
        proof {
            filter_step(known@, i as int, other_person(id));
        }
        if known[i].id != id {
            others.push(known[i].clone());
        }
        i += 1;
    }
    others
}

/// Once what the choices lack of a form is added, they lack nothing of it: the choices know
/// each task of the catalog that the form holds.
pub proof fn extended_choices_lack_no_task(
    known: Seq<CreationTask>,
    found: Seq<CreationTask>,
    tasks: Seq<ProjectTaskInput>,
)
    requires
        forall|i: int|
            0 <= i < lacked_tasks(known, tasks).len() ==> !no_task(
                found,
                #[trigger] lacked_tasks(known, tasks)[i],
            ),
    ensures
        lacked_tasks(known + found, tasks) == Seq::<u128>::empty(),
    decreases tasks.len(),
{
    if tasks.len() > 0 {
        let before = lacked_tasks(known, tasks.drop_last());
        let now = lacked_tasks(known, tasks);
        assert forall|i: int| 0 <= i < before.len() implies !no_task(
            found,
            #[trigger] before[i],
        ) by {
            assert(now[i] == before[i]);
        }
        extended_choices_lack_no_task(known, found, tasks.drop_last());
        let all = known + found;
        match tasks.last().source {
            TaskSource::Existing { task_id } => {
                if no_task(known, task_id) {
                    assert(now[before.len() as int] == task_id);
                    let k = choose|k: int| 0 <= k < found.len() && (#[trigger] found[k]).id == task_id;
                    assert(all[known.len() + k] == found[k]);
                } else {
                    let k = choose|k: int| 0 <= k < known.len() && (#[trigger] known[k]).id == task_id;
                    assert(all[k] == known[k]);
                }
                assert(!no_task(all, task_id));
            },
            TaskSource::New { .. } => {},
        }
    }
}

} // verus!

//! The names that the timesheet shows, from the lists that were loaded.

use crate::projects::budget::Project;
use std::collections::HashMap;
use vstd::prelude::*;

verus! {

broadcast use vstd::std_specs::hash::group_hash_axioms;

/// What a list that is being loaded holds: `None` while it is under way, and where loading
/// failed.
pub fn from_list<T, E>(loaded: &Option<Result<Vec<T>, E>>) -> (list: Option<&Vec<T>>)
    ensures
        match list {
            Some(list) => loaded is Some && loaded->0 == Ok::<Vec<T>, E>(*list),
            None => loaded is None || loaded->0 is Err,
        },
{
    match loaded {
        Some(Ok(list)) => Some(list),
        _ => None,
    }
}

/// A thing and its name.
#[derive(Debug)]
pub struct Named {
    pub id: u128,
    pub name: String,
}

/// The names of the first `n` things by identity; of two with one identity the later counts.
pub open spec fn names_by_id(things: Seq<Named>, n: int) -> Map<u128, String>
    decreases n,
{
    if n <= 0 {
        Map::empty()
    } else {
        names_by_id(things, n - 1).insert(things[n - 1].id, things[n - 1].name)
    }
}

/// The names of things by identity.
pub fn name_map(things: &Vec<Named>) -> (names: HashMap<u128, String>)
    ensures
        names@ == names_by_id(things@, things.len() as int),
{
    let mut names: HashMap<u128, String> = HashMap::new();
    let mut i: usize = 0;
    while i < things.len()
        invariant
            i <= things.len(),
            names@ == names_by_id(things@, i as int),
        decreases things.len() - i,
    {
        names.insert(things[i].id, things[i].name.clone());
        i += 1;
    }
    names
}

/// What a client is called, where it has a name.
pub open spec fn client_called(clients: Map<u128, String>, id: u128) -> Seq<char> {
    if clients.contains_key(id) {
        clients[id]@
    } else {
        Seq::empty()
    }
}

/// For each of the first `n` projects by identity, its client's name and its currency; of two
/// with one identity the later counts.
pub open spec fn clients_by_project(
    projects: Seq<Project>,
    clients: Map<u128, String>,
    n: int,
) -> Map<u128, (Seq<char>, Seq<char>)>
    decreases n,
{
    if n <= 0 {
        Map::empty()
    } else {
        let project = projects[n - 1];
        clients_by_project(projects, clients, n - 1).insert(
            project.id,
            (client_called(clients, project.client_id), project.currency@),
        )
    }
}

/// For each project, its client's name and its currency.
pub fn project_clients(projects: &Vec<Project>, clients: &HashMap<u128, String>) -> (shown: HashMap<
    u128,
    (String, String),
>)
    ensures
        ({
            let expected = clients_by_project(projects@, clients@, projects.len() as int);
            &&& shown@.dom() == expected.dom()
            &&& forall|id: u128| #[trigger]
                shown@.contains_key(id) ==> shown@[id].0@ == expected[id].0 && shown@[id].1@
                    == expected[id].1
        }),
{
    let mut shown: HashMap<u128, (String, String)> = HashMap::new();
    let mut i: usize = 0;
    while i < projects.len()
        invariant
            i <= projects.len(),
            shown@.dom() == clients_by_project(projects@, clients@, i as int).dom(),
            forall|id: u128| #[trigger]
                shown@.contains_key(id) ==> shown@[id].0@ == clients_by_project(
                    projects@,
                    clients@,
                    i as int,
                )[id].0 && shown@[id].1@ == clients_by_project(projects@, clients@, i as int)[id].1,
        decreases projects.len() - i,
    {
        let project = &projects[i];
        let name = match clients.get(&project.client_id) {
            Some(name) => name.clone(),
            None => String::new(),
        };
        shown.insert(project.id, (name, project.currency.clone()));
        i += 1;
    }
    shown
}

} // verus!

//! The list of projects: filters, selection, groups and labels.

use crate::ids::id_text;
use crate::ids::id_to_text;
use crate::lists::filter_all;
use crate::lists::filter_step;
use crate::lists::opt_view;
use crate::order::ranks;
use crate::order::sort_order;
use crate::order::sorted_order;
use crate::order::sorted_order_exists;
use crate::order::TextPair;
use crate::order::SortKey;
use crate::projects::budget::BudgetKind;
use crate::projects::budget::Project;
use crate::projects::budget::ProjectBudgetProgress;
use crate::text::chars_of;
use crate::text::contains;
use crate::text::contains_text;
use crate::text::decimal;
use crate::text::decimal_text;
use crate::text::lowercase;
use crate::text::same;
use crate::text::to_lowercase;
use crate::timesheet::dialog::option_label;
use crate::timesheet::dialog::project_option;
use std::collections::BTreeSet;
use std::collections::HashMap;
use vstd::prelude::*;

verus! {

broadcast use {
    vstd::std_specs::hash::group_hash_axioms,
    vstd::std_specs::btree::group_btree_axioms,
    vstd::laws_cmp::group_laws_cmp,
};

/// A tag of a project.
#[derive(Debug)]
pub struct ProjectTagLink {
    pub project_id: u128,
    pub tag_id: u128,
    pub name: String,
}

/// The projects that a tag is on.
pub open spec fn tagged(links: Seq<ProjectTagLink>, tag: Option<u128>) -> Set<u128> {
    Set::new(
        |id: u128|
            exists|i: int|
                0 <= i < links.len() && (#[trigger] links[i]).project_id == id && Some(
                    links[i].tag_id,
                ) == tag,
    )
}

/// The projects that the selected tag is on, by the tag's identity and not by its name.
pub fn matching_tag_projects(links: &[ProjectTagLink], selected: Option<u128>) -> (found: BTreeSet<
    u128,
>)
    ensures
        found@ == tagged(links@, selected),
{
    let mut found: BTreeSet<u128> = BTreeSet::new();
    let mut i: usize = 0;
    proof {
        assert(found@ =~= tagged(links@.take(0), selected));
    }
    while i < links.len()
        invariant
            i <= links.len(),
            found@ == tagged(links@.take(i as int), selected),
        decreases links.len() - i,
    {
        let ghost before = links@.take(i as int);
        let ghost after = links@.take(i + 1);
        if Some(links[i].tag_id) == selected {
            found.insert(links[i].project_id);
        }
        proof {
            let link = links@[i as int];
            assert(after[i as int] == link);
            assert forall|id: u128|
                tagged(after, selected).contains(id) <==> tagged(before, selected).contains(id) || (
                Some(link.tag_id) == selected && id == link.project_id) by {
                if tagged(before, selected).contains(id) {
                    let k = choose|k: int|
                        0 <= k < before.len() && (#[trigger] before[k]).project_id == id && Some(
                            before[k].tag_id,
                        ) == selected;
                    assert(after[k].project_id == id);
                }
                if tagged(after, selected).contains(id) {
                    let k = choose|k: int|
                        0 <= k < after.len() && (#[trigger] after[k]).project_id == id && Some(
                            after[k].tag_id,
                        ) == selected;
                    if k < i {
                        assert(before[k].project_id == id);
                    }
                }
            }
            assert(found@ =~= tagged(after, selected));
        }
        i += 1;
    }
    proof {
        assert(links@.take(links.len() as int) =~= links@);
    }
    found
}

/// A tag to choose.
#[derive(Debug)]
pub struct TagOption {
    pub id: u128,
    pub name: String,
}

/// Which of the first `n` links name a tag first.
pub open spec fn first_tags(links: Seq<ProjectTagLink>, n: int) -> Seq<(u128, Seq<char>)>
    decreases n,
{
    if n <= 0 {
        Seq::empty()
    } else {
        let before = first_tags(links, n - 1);
        let link = links[n - 1];
        if has_tag(before, link.tag_id) {
            before
        } else {
            before.push((link.tag_id, link.name@))
        }
    }
}

/// Whether a tag is among the options.
pub open spec fn has_tag(options: Seq<(u128, Seq<char>)>, id: u128) -> bool {
    exists|i: int| 0 <= i < options.len() && (#[trigger] options[i]).0 == id
}

pub open spec fn tag_views(options: Seq<TagOption>) -> Seq<(u128, Seq<char>)> {
    options.map_values(|option: TagOption| (option.id, option.name@))
}

fn find_tag(options: &Vec<TagOption>, id: u128) -> (found: Option<usize>)
    ensures
        match found {
            Some(i) => i < options.len() && options@[i as int].id == id && forall|k: int|
                0 <= k < i ==> (#[trigger] options@[k]).id != id,
            None => !has_tag(tag_views(options@), id),
        },
        found is Some ==> has_tag(tag_views(options@), id),
{
    let mut i: usize = 0;
    while i < options.len()
        invariant
            i <= options.len(),
            forall|k: int| 0 <= k < i ==> (#[trigger] options@[k]).id != id,
        decreases options.len() - i,
    {
        if options[i].id == id {
            proof {
                assert(tag_views(options@)[i as int].0 == id);
            }
            return Some(i);
        }
        i += 1;
    }
    None
}

/// The tags to choose from: each once, as the links first name it.
pub fn tag_options(links: &[ProjectTagLink]) -> (options: Vec<TagOption>)
    ensures
        tag_views(options@) == first_tags(links@, links@.len() as int),
{
    let mut options: Vec<TagOption> = Vec::new();
    let mut i: usize = 0;
    proof {
        assert(tag_views(options@) =~= first_tags(links@, 0));
    }
    while i < links.len()
        invariant
            i <= links.len(),
            tag_views(options@) == first_tags(links@, i as int),
        decreases links.len() - i,
    {
        if find_tag(&options, links[i].tag_id).is_none() {
            let ghost before = options@;
            options.push(TagOption { id: links[i].tag_id, name: links[i].name.clone() });
            proof {
                assert(tag_views(options@) =~= tag_views(before).push(
                    (links@[i as int].tag_id, links@[i as int].name@),
                ));
            }
        }
        i += 1;
    }
    options
}

/// The label of the tag filter.
pub fn tag_label(selected: Option<u128>, options: &Vec<TagOption>) -> (label: String)
    ensures
        match selected {
            None => label@ == "All tags"@,
            Some(id) => {
                &&& !has_tag(tag_views(options@), id) ==> label@ == "Selected tag unavailable"@
                &&& has_tag(tag_views(options@), id) ==> exists|i: int|
                    0 <= i < options.len() && (#[trigger] options@[i]).id == id && label@
                        == "Tag: "@ + options@[i].name@ && forall|k: int|
                        0 <= k < i ==> (#[trigger] options@[k]).id != id
            },
        },
{
    match selected {
        None => "All tags".to_owned(),
        Some(id) => match find_tag(options, id) {
            Some(i) => {
                let mut label = "Tag: ".to_owned();
                label.append(options[i].name.as_str());
                proof {
                    assert(options@[i as int].id == id);
                }
                label
            },
            None => "Selected tag unavailable".to_owned(),
        },
    }
}

/// Whether a project is of a status: with a budget, archived, or else active.
pub open spec fn of_scope(project: Project, scope: Seq<char>) -> bool {
    if scope == "budgeted"@ {
        project.active && project.budget_kind != BudgetKind::Unset
    } else if scope == "archived"@ {
        !project.active
    } else {
        project.active
    }
}

/// Whether a project passes the filters: its status, its client where one is chosen, and
/// a search in its name or its client's, both in lower case as the search is.
pub open spec fn passes_lowered(
    project: Project,
    name: Seq<char>,
    client_name: Option<Seq<char>>,
    query: Seq<char>,
    scope: Seq<char>,
    client: Seq<char>,
) -> bool {
    &&& of_scope(project, scope)
    &&& client.len() == 0 || id_text(project.client_id) == client
    &&& query.len() == 0 || contains_text(name, query) || (client_name is Some && contains_text(
        client_name->0,
        query,
    ))
}

/// The name of a project's client in lower case, where it is known.
pub open spec fn lowered_client(client_names: Map<u128, String>, id: u128) -> Option<Seq<char>> {
    if client_names.contains_key(id) {
        Some(lowercase(client_names[id]@))
    } else {
        None
    }
}

/// Whether a project passes the filters, with a search in lower case.
pub open spec fn passes_filters(
    project: Project,
    query: Seq<char>,
    scope: Seq<char>,
    client: Seq<char>,
    client_names: Map<u128, String>,
) -> bool {
    passes_lowered(
        project,
        lowercase(project.name@),
        lowered_client(client_names, project.client_id),
        query,
        scope,
        client,
    )
}

/// Whether a project passes the filters, by its name and its client's in lower case.
pub fn matches_lowered(
    project: &Project,
    name: &str,
    client_name: Option<&str>,
    query: &str,
    scope: &str,
    client: &str,
) -> (r: bool)
    ensures
        r == passes_lowered(
            *project,
            name@,
            match client_name {
                Some(name) => Some(name@),
                None => None,
            },
            query@,
            scope@,
            client@,
        ),
{
    let scope_matches = if same(scope, "budgeted") {
        project.active && project.budget_kind != BudgetKind::Unset
    } else if same(scope, "archived") {
        !project.active
    } else {
        project.active
    };
    if !scope_matches {
        return false;
    }
    if !client.is_empty() && !same(id_to_text(project.client_id).as_str(), client) {
        return false;
    }
    if query.is_empty() || contains(name, query) {
        return true;
    }
    match client_name {
        Some(client_name) => contains(client_name, query),
        None => false,
    }
}

/// Whether a project passes the filters.
pub fn matches_project_filters(
    project: &Project,
    query: &str,
    scope: &str,
    client: &str,
    client_names: &HashMap<u128, String>,
) -> (r: bool)
    ensures
        r == passes_filters(*project, query@, scope@, client@, client_names@),
{
    let name = to_lowercase(project.name.as_str());
    match client_names.get(&project.client_id) {
        Some(client_name) => {
            let lowered = to_lowercase(client_name.as_str());
            matches_lowered(project, name.as_str(), Some(lowered.as_str()), query, scope, client)
        },
        None => matches_lowered(project, name.as_str(), None, query, scope, client),
    }
}

/// What narrows the list.
pub struct ListFilter {
    pub query: String,
    pub scope: String,
    pub client: String,
    pub tag: Option<u128>,
    /// Whether the tags are loaded; without them no project has the chosen one.
    pub tags_ready: bool,
    pub tag_projects: BTreeSet<u128>,
}

impl ListFilter {
    /// Whether the filter shows a project.
    pub open spec fn keeps(self, client_names: Map<u128, String>) -> spec_fn(Project) -> bool {
        |project: Project|
            passes_filters(
                project,
                lowercase(self.query@),
                self.scope@,
                self.client@,
                client_names,
            ) && (self.tag is None || (self.tags_ready && self.tag_projects@.contains(project.id)))
    }
}

/// The projects that the list shows, in their order.
pub fn visible_projects(
    projects: &Vec<Project>,
    filter: &ListFilter,
    client_names: &HashMap<u128, String>,
) -> (visible: Vec<Project>)
    ensures
        visible@ == projects@.filter(filter.keeps(client_names@)),
{
    let query = to_lowercase(filter.query.as_str());
    let ghost keep = filter.keeps(client_names@);
    let mut visible: Vec<Project> = Vec::new();
    let mut i: usize = 0;
    proof {
        filter_all(projects@, keep);
    }
    while i < projects.len()
        invariant
            i <= projects.len(),
            query@ == lowercase(filter.query@),
            keep == filter.keeps(client_names@),
            visible@ == projects@.take(i as int).filter(keep),
        decreases projects.len() - i,
    {
        proof {
            filter_step(projects@, i as int, keep);
        }
        if matches_project_filters(
            &projects[i],
            query.as_str(),
            filter.scope.as_str(),
            filter.client.as_str(),
            client_names,
        ) && (filter.tag.is_none() || (filter.tags_ready && filter.tag_projects.contains(
            &projects[i].id,
        ))) {
            visible.push(projects[i].clone());
        }
        i += 1;
    }
    visible
}

/// A project that is selected, and what it is called.
#[derive(Debug)]
pub struct Picked {
    pub id: u128,
    pub label: String,
}

/// A project's name, after its code where it has one.
pub open spec fn project_title(project: Project) -> Seq<char> {
    option_label(opt_view(project.code), project.name@)
}

/// Whether a project is selected.
pub open spec fn is_selected(selected: Set<u128>) -> spec_fn(Project) -> bool {
    |project: Project| selected.contains(project.id)
}

/// The selected projects among those that are shown.
pub fn selection(visible: &Vec<Project>, selected: &BTreeSet<u128>) -> (picked: Vec<Picked>)
    ensures
        ({
            let kept = visible@.filter(is_selected(selected@));
            &&& picked.len() == kept.len()
            &&& forall|i: int|
                0 <= i < kept.len() ==> (#[trigger] picked@[i]).id == kept[i].id
                    && picked@[i].label@ == project_title(kept[i])
        }),
{
    let ghost keep = is_selected(selected@);
    let mut picked: Vec<Picked> = Vec::new();
    let mut i: usize = 0;
    proof {
        filter_all(visible@, keep);
    }
    while i < visible.len()
        invariant
            i <= visible.len(),
            keep == is_selected(selected@),
            picked.len() == visible@.take(i as int).filter(keep).len(),
            forall|k: int|
                0 <= k < picked.len() ==> (#[trigger] picked@[k]).id == visible@.take(
                    i as int,
                ).filter(keep)[k].id && picked@[k].label@ == project_title(
                    visible@.take(i as int).filter(keep)[k],
                ),
        decreases visible.len() - i,
    {
        proof {
            filter_step(visible@, i as int, keep);
        }
        if selected.contains(&visible[i].id) {
            picked.push(
                Picked {
                    id: visible[i].id,
                    label: project_option(&visible[i].code, visible[i].name.as_str()),
                },
            );
        }
        i += 1;
    }
    picked
}

/// Selects a project, or takes it out of the selection.
pub fn toggle(selected: &mut BTreeSet<u128>, id: u128)
    ensures
        final(selected)@ == (if old(selected)@.contains(id) {
            old(selected)@.remove(id)
        } else {
            old(selected)@.insert(id)
        }),
{
    if !selected.remove(&id) {
        selected.insert(id);
    }
}

/// The identities of projects.
pub open spec fn project_ids(projects: Seq<Project>) -> Set<u128> {
    projects.map_values(|project: Project| project.id).to_set()
}

fn ids_in(projects: &Vec<Project>) -> (ids: BTreeSet<u128>)
    ensures
        ids@ == project_ids(projects@),
{
    let ghost all = projects@.map_values(|project: Project| project.id);
    let mut ids: BTreeSet<u128> = BTreeSet::new();
    let mut i: usize = 0;
    proof {
        assert(ids@ =~= all.take(0).to_set());
    }
    while i < projects.len()
        invariant
            i <= projects.len(),
            all == projects@.map_values(|project: Project| project.id),
            ids@ == all.take(i as int).to_set(),
        decreases projects.len() - i,
    {
        let ghost before = all.take(i as int);
        ids.insert(projects[i].id);
        proof {
            assert(all.take(i + 1) =~= before.push(all[i as int]));
            assert forall|id: u128|
                before.push(all[i as int]).contains(id) <==> before.contains(id) || id
                    == all[i as int] by {
                if before.contains(id) {
                    let k = choose|k: int| 0 <= k < before.len() && before[k] == id;
                    assert(before.push(all[i as int])[k] == id);
                }
                if id == all[i as int] {
                    assert(before.push(all[i as int])[i as int] == id);
                }
            }
            assert(ids@ =~= all.take(i + 1).to_set());
        }
        i += 1;
    }
    proof {
        assert(all.take(projects.len() as int) =~= all);
    }
    ids
}

/// Whether all projects that are shown are selected, when `selected_count` of them are.
pub fn all_selected(visible: &Vec<Project>, selected_count: usize) -> (all: bool)
    ensures
        all == (project_ids(visible@).len() > 0 && selected_count == project_ids(visible@).len()),
{
    let ids = ids_in(visible);
    ids.len() > 0 && selected_count == ids.len()
}

/// Selects all projects that are shown, or none where all are selected.
pub fn toggle_all(selected: &mut BTreeSet<u128>, visible: &Vec<Project>, all: bool)
    ensures
        final(selected)@ == (if all {
            Set::empty()
        } else {
            project_ids(visible@)
        }),
{
    if all {
        selected.clear();
    } else {
        *selected = ids_in(visible);
    }
}

/// What can be done with the selection.
pub fn bulk_label(scope: &str) -> (label: &'static str)
    ensures
        label@ == (if scope@ == "archived"@ {
            "Reactivate projects"@
        } else {
            "Archive projects"@
        }),
{
    if same(scope, "archived") {
        "Reactivate projects"
    } else {
        "Archive projects"
    }
}

/// How many projects are selected.
pub fn selection_label(count: usize) -> (label: String)
    ensures
        label@ == (if count == 0 {
            "Select projects first"@
        } else if count == 1 {
            "1 project selected"@
        } else {
            decimal(count as nat) + " projects selected"@
        }),
{
    if count == 0 {
        "Select projects first".to_owned()
    } else if count == 1 {
        "1 project selected".to_owned()
    } else {
        let mut label = decimal_text(count as u128);
        label.append(" projects selected");
        label
    }
}

/// A change of status of several projects.
#[derive(Debug)]
pub struct BulkProjectAction {
    pub activate: bool,
    pub projects: Vec<Picked>,
}

/// The most projects whose status is changed at once.
pub const BULK_LIMIT: usize = 100;

/// The change of status to confirm: of one to a hundred selected projects, while no other
/// change is on its way.
pub fn request_bulk(picked: Vec<Picked>, scope: &str, busy: bool) -> (action: Option<
    BulkProjectAction,
>)
    ensures
        action is Some <==> 1 <= picked.len() <= 100 && !busy,
        action is Some ==> action->0.activate == (scope@ == "archived"@) && action->0.projects
            == picked,
{
    if picked.len() == 0 || picked.len() > BULK_LIMIT || busy {
        return None;
    }
    Some(BulkProjectAction { activate: same(scope, "archived"), projects: picked })
}

/// The noun for a number of projects.
pub open spec fn projects_noun(count: nat) -> Seq<char> {
    if count == 1 {
        "project"@
    } else {
        "projects"@
    }
}

/// What a change of status asks, or `None` while none is to be confirmed.
pub open spec fn confirm_text(action: Option<BulkProjectAction>) -> Seq<char> {
    let count = match action {
        Some(action) => action.projects.len() as nat,
        None => 0,
    };
    (if action is Some && action->0.activate {
        "Reactivate"@
    } else {
        "Archive"@
    }) + " "@ + decimal(count) + " "@ + projects_noun(count) + "?"@
}

/// The question that confirms a change of status.
pub fn confirm_title(action: &Option<BulkProjectAction>) -> (title: String)
    ensures
        title@ == confirm_text(*action),
{
    let (activate, count) = match action {
        Some(action) => (action.activate, action.projects.len()),
        None => (false, 0),
    };
    let mut title = if activate {
        "Reactivate".to_owned()
    } else {
        "Archive".to_owned()
    };
    title.append(" ");
    title.append(decimal_text(count as u128).as_str());
    title.append(" ");
    if count == 1 {
        title.append("project");
    } else {
        title.append("projects");
    }
    title.append("?");
    title
}

/// What is said once the status of projects has been changed.
pub fn bulk_success(action: &BulkProjectAction) -> (message: String)
    ensures
        message@ == (if action.activate {
            "Reactivated"@
        } else {
            "Archived"@
        }) + " "@ + decimal(action.projects.len() as nat) + " "@ + projects_noun(
            action.projects.len() as nat,
        ),
{
    let mut message = if action.activate {
        "Reactivated".to_owned()
    } else {
        "Archived".to_owned()
    };
    message.append(" ");
    message.append(decimal_text(action.projects.len() as u128).as_str());
    message.append(" ");
    if action.projects.len() == 1 {
        message.append("project");
    } else {
        message.append("projects");
    }
    message
}

/// Whether a project is of the status `scope`.
pub open spec fn scoped(scope: Seq<char>) -> spec_fn(Project) -> bool {
    |project: Project| of_scope(project, scope)
}

/// How many projects are of a status.
pub fn scope_count(projects: &Vec<Project>, scope: &str) -> (count: usize)
    ensures
        count == projects@.filter(scoped(scope@)).len(),
{
    let budgeted = same(scope, "budgeted");
    let archived = same(scope, "archived");
    let ghost keep = scoped(scope@);
    let mut count: usize = 0;
    let mut i: usize = 0;
    proof {
        filter_all(projects@, keep);
    }
    while i < projects.len()
        invariant
            i <= projects.len(),
            count <= i,
            keep == scoped(scope@),
            budgeted == (scope@ == "budgeted"@),
            archived == (scope@ == "archived"@),
            count == projects@.take(i as int).filter(keep).len(),
        decreases projects.len() - i,
    {
        proof {
            filter_step(projects@, i as int, keep);
        }
        let counts = if budgeted {
            projects[i].active && projects[i].budget_kind != BudgetKind::Unset
        } else if archived {
            !projects[i].active
        } else {
            projects[i].active
        };
        if counts {
            count += 1;
        }
        i += 1;
    }
    count
}

/// The label of the status filter.
pub fn scope_label(projects: &Vec<Project>, scope: &str) -> (label: String)
    ensures
        label@ == (if scope@ == "budgeted"@ {
            "Budgeted projects ("@
        } else if scope@ == "archived"@ {
            "Archived projects ("@
        } else {
            "Active projects ("@
        }) + decimal(projects@.filter(scoped(scope@)).len()) + ")"@,
{
    let mut label = if same(scope, "budgeted") {
        "Budgeted projects (".to_owned()
    } else if same(scope, "archived") {
        "Archived projects (".to_owned()
    } else {
        "Active projects (".to_owned()
    };
    label.append(decimal_text(scope_count(projects, scope) as u128).as_str());
    label.append(")");
    label
}

/// A client to choose.
#[derive(Debug)]
pub struct Client {
    pub id: u128,
    pub name: String,
    pub active: bool,
}

/// A choice of a client, in its group.
#[derive(Debug)]
pub struct ClientOption {
    pub value: String,
    pub label: String,
    pub group: &'static str,
}

/// Whether a client is active, or archived.
pub open spec fn with_status(active: bool) -> spec_fn(Client) -> bool {
    |client: Client| client.active == active
}

/// What clients are sorted by: their name in lower case.
pub open spec fn client_ranks(clients: Seq<Client>) -> Seq<(Seq<char>, Seq<char>)> {
    clients.map_values(|client: Client| (lowercase(client.name@), Seq::empty()))
}

/// The clients of a status by name.
pub open spec fn clients_by_name(clients: Seq<Client>, active: bool) -> Seq<Client> {
    let kept = clients.filter(with_status(active));
    let order = sorted_order::<TextPair>(client_ranks(kept));
    Seq::new(kept.len(), |i: int| kept[order[i]])
}

impl ClientOption {
    pub open spec fn offers(self, client: Client, group: Seq<char>) -> bool {
        &&& self.value@ == id_text(client.id)
        &&& self.label@ == client.name@
        &&& self.group@ == group
    }
}

/// Adds choices for the clients at the places `kept`, in the order of their keys.
pub fn push_by_keys(
    options: &mut Vec<ClientOption>,
    clients: &Vec<Client>,
    kept: &Vec<usize>,
    keys: &Vec<TextPair>,
    group: &'static str,
)
    requires
        kept.len() == keys.len(),
        forall|k: int| 0 <= k < kept.len() ==> #[trigger] kept@[k] < clients.len(),
    ensures
        ({
            let order = sorted_order::<TextPair>(ranks(keys@));
            &&& final(options).len() == old(options).len() + kept.len()
            &&& forall|i: int| 0 <= i < old(options).len() ==> final(options)@[i] == old(options)@[i]
            &&& forall|i: int|
                0 <= i < kept.len() ==> (#[trigger] final(options)@[old(options).len() + i]).offers(
                    clients@[kept@[order[i]] as int],
                    group@,
                )
        }),
{
    let order = sort_order(keys);
    let ghost positions = order@.map_values(|i: usize| i as int);
    let ghost start = options@;
    let mut p: usize = 0;
    while p < order.len()
        invariant
            p <= order.len(),
            order.len() == kept.len(),
            positions == order@.map_values(|i: usize| i as int),
            forall|i: int| 0 <= i < positions.len() ==> 0 <= #[trigger] positions[i] < kept.len(),
            forall|k: int| 0 <= k < kept.len() ==> #[trigger] kept@[k] < clients.len(),
            start == old(options)@,
            options.len() == start.len() + p,
            forall|i: int| 0 <= i < start.len() ==> options@[i] == start[i],
            forall|i: int|
                0 <= i < p ==> (#[trigger] options@[start.len() + i]).offers(
                    clients@[kept@[positions[i]] as int],
                    group@,
                ),
        decreases order.len() - p,
    {
        proof {
            assert(positions[p as int] == order@[p as int]);
        }
        let client = &clients[kept[order[p]]];
        options.push(
            ClientOption { value: id_to_text(client.id), label: client.name.clone(), group },
        );
        p += 1;
    }
}

fn push_clients(
    options: &mut Vec<ClientOption>,
    clients: &Vec<Client>,
    active: bool,
    group: &'static str,
)
    ensures
        ({
            let sorted = clients_by_name(clients@, active);
            &&& final(options).len() == old(options).len() + sorted.len()
            &&& forall|i: int| 0 <= i < old(options).len() ==> final(options)@[i] == old(options)@[i]
            &&& forall|i: int|
                0 <= i < sorted.len() ==> (#[trigger] final(options)@[old(options).len() + i]).offers(
                    sorted[i],
                    group@,
                )
        }),
{
    let ghost keep = with_status(active);
    let mut kept: Vec<usize> = Vec::new();
    let mut keys: Vec<TextPair> = Vec::new();
    let mut i: usize = 0;
    proof {
        filter_all(clients@, keep);
    }
    while i < clients.len()
        invariant
            i <= clients.len(),
            keep == with_status(active),
            kept.len() == keys.len(),
            kept.len() == clients@.take(i as int).filter(keep).len(),
            forall|k: int|
                0 <= k < kept.len() ==> #[trigger] kept@[k] < clients.len()
                    && clients@[kept@[k] as int] == clients@.take(i as int).filter(keep)[k],
            ranks(keys@) == client_ranks(clients@.take(i as int).filter(keep)),
        decreases clients.len() - i,
    {
        let ghost before = clients@.take(i as int).filter(keep);
        let ghost earlier = keys@;
        proof {
            filter_step(clients@, i as int, keep);
        }
        if clients[i].active == active {
            let name = to_lowercase(clients[i].name.as_str());
            kept.push(i);
            keys.push(TextPair { first: chars_of(name.as_str()), second: Vec::new() });
            proof {
                let rank = (lowercase(clients@[i as int].name@), Seq::<char>::empty());
                assert(keys@.last().rank().1 =~= rank.1);
                assert(ranks(keys@) =~= ranks(earlier).push(rank));
                assert(client_ranks(before.push(clients@[i as int])) =~= client_ranks(
                    before,
                ).push(rank));
            }
        }
        i += 1;
    }
    proof {
        sorted_order_exists::<TextPair>(ranks(keys@));
    }
    push_by_keys(options, clients, &kept, &keys, group);
}

/// The clients to choose from: the active ones by name, then the archived ones.
pub fn client_options(clients: &Vec<Client>) -> (options: Vec<ClientOption>)
    ensures
        ({
            let active = clients_by_name(clients@, true);
            let archived = clients_by_name(clients@, false);
            &&& options.len() == active.len() + archived.len()
            &&& forall|i: int|
                0 <= i < active.len() ==> (#[trigger] options@[i]).offers(
                    active[i],
                    "Active clients"@,
                )
            &&& forall|i: int|
                0 <= i < archived.len() ==> (#[trigger] options@[active.len() + i]).offers(
                    archived[i],
                    "Archived clients"@,
                )
        }),
{
    let mut options: Vec<ClientOption> = Vec::new();
    push_clients(&mut options, clients, true, "Active clients");
    let ghost first = options@;
    push_clients(&mut options, clients, false, "Archived clients");
    proof {
        let active = clients_by_name(clients@, true);
        assert forall|i: int| 0 <= i < active.len() implies (#[trigger] options@[i]).offers(
            active[i],
            "Active clients"@,
        ) by {
            assert(options@[i] == first[i]);
            assert(first[0 + i].offers(active[i], "Active clients"@));
        }
    }
    options
}

/// A client's name for sorting: none where it is not known.
pub open spec fn sort_name(client_names: Map<u128, String>, project: Project) -> Seq<char> {
    if client_names.contains_key(project.client_id) {
        client_names[project.client_id]@
    } else {
        Seq::empty()
    }
}

/// A client's name as the heading of a group.
pub open spec fn group_name(client_names: Map<u128, String>, project: Project) -> Seq<char> {
    if client_names.contains_key(project.client_id) {
        client_names[project.client_id]@
    } else {
        "Unknown client"@
    }
}

/// What projects are sorted by: their client's name and their own, in lower case.
pub open spec fn project_ranks(
    projects: Seq<Project>,
    client_names: Map<u128, String>,
) -> Seq<(Seq<char>, Seq<char>)> {
    projects.map_values(
        |project: Project|
            (lowercase(sort_name(client_names, project)), lowercase(project.name@)),
    )
}

/// Projects in the order of what they are sorted by.
pub open spec fn in_rank_order(projects: Seq<Project>, by: Seq<(Seq<char>, Seq<char>)>) -> Seq<
    Project,
> {
    let order = sorted_order::<TextPair>(by);
    Seq::new(projects.len(), |i: int| projects[order[i]])
}

/// The projects by client and name.
pub open spec fn sorted_projects(
    projects: Seq<Project>,
    client_names: Map<u128, String>,
) -> Seq<Project> {
    in_rank_order(projects, project_ranks(projects, client_names))
}

/// Puts projects in the order of their keys.
pub fn sort_by_keys(projects: &Vec<Project>, keys: &Vec<TextPair>) -> (sorted: Vec<Project>)
    requires
        keys.len() == projects.len(),
    ensures
        sorted@ == in_rank_order(projects@, ranks(keys@)),
{
    let order = sort_order(keys);
    let ghost positions = order@.map_values(|i: usize| i as int);
    let mut sorted: Vec<Project> = Vec::new();
    let mut p: usize = 0;
    while p < order.len()
        invariant
            p <= order.len(),
            order.len() == projects.len(),
            positions == order@.map_values(|i: usize| i as int),
            forall|i: int|
                0 <= i < positions.len() ==> 0 <= #[trigger] positions[i] < projects.len(),
            sorted.len() == p,
            forall|i: int| 0 <= i < p ==> sorted@[i] == projects@[#[trigger] positions[i]],
        decreases order.len() - p,
    {
        proof {
            assert(positions[p as int] == order@[p as int]);
        }
        sorted.push(projects[order[p]].clone());
        p += 1;
    }
    proof {
        assert(sorted@ =~= in_rank_order(projects@, ranks(keys@)));
    }
    sorted
}

fn sort_projects(projects: &Vec<Project>, client_names: &HashMap<u128, String>) -> (sorted: Vec<
    Project,
>)
    ensures
        sorted@ == sorted_projects(projects@, client_names@),
{
    let ghost all = project_ranks(projects@, client_names@);
    let mut keys: Vec<TextPair> = Vec::new();
    let mut i: usize = 0;
    while i < projects.len()
        invariant
            i <= projects.len(),
            all == project_ranks(projects@, client_names@),
            keys.len() == i,
            forall|k: int| 0 <= k < i ==> (#[trigger] keys@[k]).rank() == all[k],
        decreases projects.len() - i,
    {
        let client = match client_names.get(&projects[i].client_id) {
            Some(name) => name.clone(),
            None => String::new(),
        };
        let first = to_lowercase(client.as_str());
        let second = to_lowercase(projects[i].name.as_str());
        proof {
            assert(client@ =~= sort_name(client_names@, projects@[i as int]));
        }
        keys.push(
            TextPair { first: chars_of(first.as_str()), second: chars_of(second.as_str()) },
        );
        i += 1;
    }
    proof {
        assert(ranks(keys@) =~= all);
    }
    sort_by_keys(projects, &keys)
}

/// The projects of one client.
pub struct ProjectGroup {
    pub name: String,
    pub projects: Vec<Project>,
}

/// The projects of the first `n` groups.
pub open spec fn grouped(groups: Seq<ProjectGroup>, n: int) -> Seq<Project>
    decreases n,
{
    if n <= 0 {
        Seq::empty()
    } else {
        grouped(groups, n - 1) + groups[n - 1].projects@
    }
}

/// Whether `groups` part `projects`, in their order, wherever the client's name changes.
pub open spec fn are_groups(
    groups: Seq<ProjectGroup>,
    projects: Seq<Project>,
    client_names: Map<u128, String>,
) -> bool {
    &&& grouped(groups, groups.len() as int) == projects
    &&& forall|g: int|
        0 <= g < groups.len() ==> (#[trigger] groups[g]).projects.len() > 0
    &&& forall|g: int, i: int|
        0 <= g < groups.len() && 0 <= i < groups[g].projects.len() ==> group_name(
            client_names,
            #[trigger] groups[g].projects@[i],
        ) == groups[g].name@
    &&& forall|g: int|
        0 < g < groups.len() ==> (#[trigger] groups[g]).name@ != groups[g - 1].name@
}

/// The projects by client, ordered by the client's name and then by their own.
pub fn group_projects(projects: &Vec<Project>, client_names: &HashMap<u128, String>) -> (groups: Vec<
    ProjectGroup,
>)
    ensures
        are_groups(groups@, sorted_projects(projects@, client_names@), client_names@),
{
    let sorted = sort_projects(projects, client_names);
    let mut groups: Vec<ProjectGroup> = Vec::new();
    let mut i: usize = 0;
    proof {
        assert(sorted@.take(0) =~= grouped(groups@, 0));
    }
    while i < sorted.len()
        invariant
            i <= sorted.len(),
            are_groups(groups@, sorted@.take(i as int), client_names@),
        decreases sorted.len() - i,
    {
        let name = match client_names.get(&sorted[i].client_id) {
            Some(name) => name.clone(),
            None => "Unknown client".to_owned(),
        };
        let ghost before = groups@;
        let ghost project = sorted@[i as int];
        let n: usize = groups.len();
        if n > 0 && same(groups[n - 1].name.as_str(), name.as_str()) {
            let mut last = match groups.pop() {
                Some(last) => last,
                None => ProjectGroup { name, projects: Vec::new() },
            };
            last.projects.push(sorted[i].clone());
            groups.push(last);
            proof {
                grouped_prefix(before, groups@, n - 1);
                assert(groups@[n - 1].projects@ == before[n - 1].projects@.push(project));
            }
        } else {
            let mut list: Vec<Project> = Vec::new();
            list.push(sorted[i].clone());
            groups.push(ProjectGroup { name, projects: list });
            proof {
                grouped_prefix(before, groups@, n as int);
                assert(groups@[n as int].projects@ =~= seq![project]);
            }
        }
        proof {
            assert(sorted@.take(i + 1) =~= sorted@.take(i as int).push(project));
            assert(grouped(groups@, groups.len() as int) =~= sorted@.take(i + 1));
        }
        i += 1;
    }
    proof {
        assert(sorted@.take(sorted.len() as int) =~= sorted@);
    }
    groups
}

proof fn grouped_prefix(a: Seq<ProjectGroup>, b: Seq<ProjectGroup>, n: int)
    requires
        0 <= n <= a.len(),
        n <= b.len(),
        forall|k: int| 0 <= k < n ==> a[k] == b[k],
    ensures
        grouped(a, n) == grouped(b, n),
    decreases n,
{
    if n > 0 {
        grouped_prefix(a, b, n - 1);
    }
}

/// Whether a part of a budget is of a project.
pub open spec fn of_project(id: u128) -> spec_fn(ProjectBudgetProgress) -> bool {
    |row: ProjectBudgetProgress| row.project_id == id
}

/// The parts of a project's budget, in their order.
pub fn budget_rows(rows: &Vec<ProjectBudgetProgress>, id: u128) -> (found: Vec<
    ProjectBudgetProgress,
>)
    ensures
        found@ == rows@.filter(of_project(id)),
{
    let mut found: Vec<ProjectBudgetProgress> = Vec::new();
    let mut i: usize = 0;
    proof {
        filter_all(rows@, of_project(id));
    }
    while i < rows.len()
        invariant
            i <= rows.len(),
            found@ == rows@.take(i as int).filter(of_project(id)),
        decreases rows.len() - i,
    {
        proof {
            filter_step(rows@, i as int, of_project(id));
        }
        if rows[i].project_id == id {
            found.push(rows[i].clone());
        }
        i += 1;
    }
    found
}

/// The address of an export.
pub fn export_url(format: &str, scope: &str) -> (url: String)
    ensures
        url@ == "/api/projects/export/"@ + format@ + "?scope="@ + scope@,
{
    let mut url = "/api/projects/export/".to_owned();
    url.append(format);
    url.append("?scope=");
    url.append(scope);
    url
}

} // verus!

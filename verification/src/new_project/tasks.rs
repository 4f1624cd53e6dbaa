//! The tasks of a project: which there are, whether they are billed and who can track to
//! them.

use crate::ids::id_text;
use crate::ids::id_to_text;
use crate::ids::new_id;
use crate::lists::contains_id;
use crate::lists::filter_all;
use crate::lists::filter_step;
use crate::lists::first_text;
use crate::lists::is_first_text;
use crate::lists::views;
use crate::money::cents_text;
use crate::money::format_cents_plain;
use crate::new_project::form::BudgetMode;
use crate::new_project::form::ProjectTaskInput;
use crate::new_project::form::TaskAccess;
use crate::new_project::form::TaskSource;
use crate::text::chars_of;
use crate::text::decimal;
use crate::text::decimal_text;
use crate::text::lowercase;
use crate::text::same;
use crate::text::to_lowercase;
use crate::text::trim;
use crate::text::trimmed;
use vstd::prelude::*;

verus! {

/// The most tasks that a project has.
pub const TASK_LIMIT: usize = 500;

/// A task that can be chosen.
#[derive(Debug)]
pub struct CreationTask {
    pub id: u128,
    pub name: String,
    pub billable: bool,
    pub default_rate_cents: Option<i64>,
}

impl Clone for CreationTask {
    fn clone(&self) -> (copy: Self)
        ensures
            copy == *self,
    {
        CreationTask {
            id: self.id,
            name: self.name.clone(),
            billable: self.billable,
            default_rate_cents: self.default_rate_cents,
        }
    }
}

/// Whether no task of a catalog has an identity.
pub open spec fn no_task(catalog: Seq<CreationTask>, id: u128) -> bool {
    forall|k: int| 0 <= k < catalog.len() ==> (#[trigger] catalog[k]).id != id
}

/// The first task of a catalog with an identity.
pub open spec fn task_with(catalog: Seq<CreationTask>, id: u128) -> Option<CreationTask>
    decreases catalog.len(),
{
    if catalog.len() == 0 {
        None
    } else if catalog[0].id == id {
        Some(catalog[0])
    } else {
        task_with(catalog.skip(1), id)
    }
}

proof fn found_at(catalog: Seq<CreationTask>, id: u128, i: int)
    requires
        0 <= i <= catalog.len(),
        forall|k: int| 0 <= k < i ==> (#[trigger] catalog[k]).id != id,
        i < catalog.len() ==> catalog[i].id == id,
    ensures
        task_with(catalog, id) == (if i < catalog.len() {
            Some(catalog[i])
        } else {
            None
        }),
    decreases catalog.len(),
{
    if catalog.len() > 0 && i > 0 {
        assert(catalog[0].id != id);
        let rest = catalog.skip(1);
        assert forall|k: int| 0 <= k < i - 1 implies (#[trigger] rest[k]).id != id by {
            assert(rest[k] == catalog[k + 1]);
        }
        found_at(rest, id, i - 1);
    }
}

/// Finds the first task of a catalog with an identity.
pub fn find_task(catalog: &Vec<CreationTask>, id: u128) -> (found: Option<usize>)
    ensures
        match found {
            Some(i) => i < catalog.len() && task_with(catalog@, id) == Some(catalog@[i as int])
                && !no_task(catalog@, id),
            None => task_with(catalog@, id) is None && no_task(catalog@, id),
        },
{
    let mut i: usize = 0;
    while i < catalog.len()
        invariant
            i <= catalog.len(),
            forall|k: int| 0 <= k < i ==> (#[trigger] catalog@[k]).id != id,
        decreases catalog.len() - i,
    {
        if catalog[i].id == id {
            proof {
                found_at(catalog@, id, i as int);
            }
            return Some(i);
        }
        i += 1;
    }
    proof {
        found_at(catalog@, id, catalog.len() as int);
    }
    None
}

/// Whether tasks hold one from a source.
pub open spec fn has_source(tasks: Seq<ProjectTaskInput>, source: TaskSource) -> bool {
    exists|i: int| 0 <= i < tasks.len() && (#[trigger] tasks[i]).source.same(source)
}

/// That something is selected already.
pub open spec fn already_selected(noun: Seq<char>) -> Seq<char> {
    "This "@ + noun + " is already selected."@
}

fn already_selected_text(noun: &str) -> (message: String)
    ensures
        message@ == already_selected(noun@),
{
    let mut message = "This ".to_owned();
    message.append(noun);
    message.append(" is already selected.");
    message
}

/// Why a task cannot be added.
pub open spec fn refusal(tasks: Seq<ProjectTaskInput>, source: TaskSource) -> Option<Seq<char>> {
    if tasks.len() >= 500 {
        Some("A project can have at most 500 tasks."@)
    } else if has_source(tasks, source) {
        Some(already_selected("task"@))
    } else {
        None
    }
}

/// Whether a task is billed when it is added: a new one, and one that its catalog says is.
pub open spec fn starts_billable(catalog: Seq<CreationTask>, source: TaskSource) -> bool {
    match source {
        TaskSource::Existing { task_id } => match task_with(catalog, task_id) {
            Some(task) => task.billable,
            None => false,
        },
        TaskSource::New { .. } => true,
    }
}

/// Whether a task is as it is when it was just added.
pub open spec fn just_added(
    task: ProjectTaskInput,
    catalog: Seq<CreationTask>,
    source: TaskSource,
) -> bool {
    &&& task.source == source
    &&& task.billable == starts_billable(catalog, source)
    &&& task.rate@.len() == 0
    &&& task.budget@.len() == 0
    &&& task.access is Everyone
}

fn contains_source(tasks: &Vec<ProjectTaskInput>, source: &TaskSource) -> (found: bool)
    ensures
        found == has_source(tasks@, *source),
{
    let mut i: usize = 0;
    while i < tasks.len()
        invariant
            i <= tasks.len(),
            forall|k: int| 0 <= k < i ==> !(#[trigger] tasks@[k]).source.same(*source),
        decreases tasks.len() - i,
    {
        if tasks[i].source.equals(source) {
            return true;
        }
        i += 1;
    }
    false
}

/// Adds a task to a project, or says why it cannot be added.
pub fn add_task(
    tasks: &mut Vec<ProjectTaskInput>,
    catalog: &Vec<CreationTask>,
    source: TaskSource,
) -> (error: Option<String>)
    ensures
        match refusal(old(tasks)@, source) {
            Some(message) => error is Some && error->0@ == message && final(tasks)@ == old(tasks)@,
            None => error is None && final(tasks)@ == old(tasks)@.push(final(tasks)@.last())
                && just_added(final(tasks)@.last(), catalog@, source),
        },
{
    if tasks.len() >= TASK_LIMIT {
        return Some("A project can have at most 500 tasks.".to_owned());
    }
    if contains_source(tasks, &source) {
        return Some(already_selected_text("task"));
    }
    let billable = match &source {
        TaskSource::Existing { task_id } => match find_task(catalog, *task_id) {
            Some(i) => catalog[i].billable,
            None => false,
        },
        TaskSource::New { .. } => true,
    };
    tasks.push(
        ProjectTaskInput {
            id: new_id(),
            source,
            billable,
            rate: String::new(),
            budget: String::new(),
            access: TaskAccess::Everyone,
        },
    );
    None
}

/// A catalog that knows a task.
pub open spec fn with_task(catalog: Seq<CreationTask>, task: CreationTask) -> Seq<CreationTask> {
    if no_task(catalog, task.id) {
        catalog.push(task)
    } else {
        catalog
    }
}

/// Adds a task that was found to the project, and to the catalog where it is not in it.
pub fn choose_task(
    tasks: &mut Vec<ProjectTaskInput>,
    catalog: &mut Vec<CreationTask>,
    task: &CreationTask,
) -> (error: Option<String>)
    ensures
        final(catalog)@ == with_task(old(catalog)@, *task),
        ({
            let source = TaskSource::Existing { task_id: task.id };
            match refusal(old(tasks)@, source) {
                Some(message) => error is Some && error->0@ == message && final(tasks)@ == old(tasks)@,
                None => error is None && final(tasks)@ == old(tasks)@.push(final(tasks)@.last())
                    && just_added(final(tasks)@.last(), final(catalog)@, source),
            }
        }),
{
    if find_task(catalog, task.id).is_none() {
        catalog.push(task.clone());
    }
    add_task(tasks, catalog, TaskSource::Existing { task_id: task.id })
}

/// What tasks are called by: their names in lower case.
pub open spec fn name_keys(found: Seq<CreationTask>) -> Seq<Seq<char>> {
    found.map_values(|task: CreationTask| lowercase(task.name@))
}

/// Whether the task at `i` is the first that is called by a name, whatever the case.
pub open spec fn is_called(found: Seq<CreationTask>, name: Seq<char>, i: int) -> bool {
    is_first_text(name_keys(found), lowercase(name), i)
}

/// Whether no task is called by a name, whatever the case.
pub open spec fn none_called(found: Seq<CreationTask>, name: Seq<char>) -> bool {
    !name_keys(found).contains(lowercase(name))
}

fn keys_of_names(found: &Vec<CreationTask>) -> (keys: Vec<String>)
    ensures
        views(keys@) == name_keys(found@),
{
    let mut keys: Vec<String> = Vec::new();
    let mut i: usize = 0;
    while i < found.len()
        invariant
            i <= found.len(),
            keys.len() == i,
            forall|k: int| 0 <= k < i ==> (#[trigger] keys@[k])@ == lowercase(found@[k].name@),
        decreases found.len() - i,
    {
        keys.push(to_lowercase(found[i].name.as_str()));
        i += 1;
    }
    proof {
        assert(views(keys@) =~= name_keys(found@));
    }
    keys
}

/// What adding a task by its name comes to.
#[derive(Debug)]
pub enum NamedTask {
    /// Nothing: the name cannot be one.
    Unnamed,
    /// The task that was found under the name.
    Known { task: CreationTask },
    /// A new task of the name.
    Fresh { name: String },
}

impl NamedTask {
    /// Whether this is what adding a task by a name comes to, from the key of the name and the
    /// keys of the tasks that were found.
    pub open spec fn is_for(
        self,
        found: Seq<CreationTask>,
        keys: Seq<Seq<char>>,
        name: Seq<char>,
        key: Seq<char>,
    ) -> bool {
        match self {
            NamedTask::Unnamed => name.len() == 0 || name.len() > 200,
            NamedTask::Known { task } => 0 < name.len() <= 200 && exists|i: int| #[trigger]
                is_first_text(keys, key, i) && task == found[i],
            NamedTask::Fresh { name: fresh } => 0 < name.len() <= 200 && !keys.contains(key)
                && fresh@ == name,
        }
    }
}

/// Which task a name, which is trimmed, stands for: the first whose key is that of the name.
pub fn named_by_key(
    found: &Vec<CreationTask>,
    keys: &Vec<String>,
    name: String,
    key: &str,
) -> (named: NamedTask)
    requires
        keys.len() == found.len(),
    ensures
        named.is_for(found@, views(keys@), name@, key@),
{
    let count: usize = chars_of(name.as_str()).len();
    if count == 0 || count > 200 {
        return NamedTask::Unnamed;
    }
    match first_text(keys, key) {
        Some(i) => {
            proof {
                assert(is_first_text(views(keys@), key@, i as int));
            }
            NamedTask::Known { task: found[i].clone() }
        },
        None => NamedTask::Fresh { name },
    }
}

/// Which task a name stands for, among those that were found.
pub fn named_task(found: &Vec<CreationTask>, query: &str) -> (named: NamedTask)
    ensures
        named.is_for(found@, name_keys(found@), trimmed(query@), lowercase(trimmed(query@))),
{
    let name = trim(query);
    let key = to_lowercase(name.as_str());
    let keys = keys_of_names(found);
    proof {
        assert(views(keys@).len() == keys.len());
    }
    named_by_key(found, &keys, name, key.as_str())
}

/// Adds the task that a name stands for.
pub fn add_named_task(
    tasks: &mut Vec<ProjectTaskInput>,
    catalog: &mut Vec<CreationTask>,
    named: NamedTask,
) -> (error: Option<String>)
    ensures
        match named {
            NamedTask::Unnamed => {
                &&& error is Some
                &&& error->0@ == "Enter a task name from 1 to 200 characters."@
                &&& final(tasks)@ == old(tasks)@
                &&& final(catalog)@ == old(catalog)@
            },
            NamedTask::Known { task } => {
                &&& final(catalog)@ == with_task(old(catalog)@, task)
                &&& added_or_refused(
                    old(tasks)@,
                    final(tasks)@,
                    with_task(old(catalog)@, task),
                    TaskSource::Existing { task_id: task.id },
                    error,
                )
            },
            NamedTask::Fresh { name } => {
                &&& final(catalog)@ == old(catalog)@
                &&& added_or_refused(
                    old(tasks)@,
                    final(tasks)@,
                    old(catalog)@,
                    TaskSource::New { name },
                    error,
                )
            },
        },
{
    match named {
        NamedTask::Unnamed => Some("Enter a task name from 1 to 200 characters.".to_owned()),
        NamedTask::Known { task } => choose_task(tasks, catalog, &task),
        NamedTask::Fresh { name } => add_task(tasks, catalog, TaskSource::New { name }),
    }
}

/// Adds the task of a name: the one that was found, or a new one.
pub fn add_named(
    tasks: &mut Vec<ProjectTaskInput>,
    catalog: &mut Vec<CreationTask>,
    found: &Vec<CreationTask>,
    query: &str,
) -> (error: Option<String>)
    ensures
        ({
            let name = trimmed(query@);
            let valid = 0 < name.len() <= 200;
            &&& !valid ==> {
                &&& error is Some
                &&& error->0@ == "Enter a task name from 1 to 200 characters."@
                &&& final(tasks)@ == old(tasks)@
                &&& final(catalog)@ == old(catalog)@
            }
            &&& valid && none_called(found@, name) ==> {
                &&& final(catalog)@ == old(catalog)@
                &&& exists|source: TaskSource|
                    {
                        &&& source is New
                        &&& source->name@ == name
                        &&& #[trigger] added_or_refused(
                            old(tasks)@,
                            final(tasks)@,
                            old(catalog)@,
                            source,
                            error,
                        )
                    }
            }
            &&& forall|i: int|
                valid && #[trigger] is_called(found@, name, i) ==> {
                    &&& final(catalog)@ == with_task(old(catalog)@, found@[i])
                    &&& added_or_refused(
                        old(tasks)@,
                        final(tasks)@,
                        with_task(old(catalog)@, found@[i]),
                        TaskSource::Existing { task_id: found@[i].id },
                        error,
                    )
                }
        }),
{
    let named = named_task(found, query);
    proof {
        let name = trimmed(query@);
        let keys = name_keys(found@);
        let key = lowercase(name);
        assert forall|i: int| #[trigger] is_called(found@, name, i) implies keys.contains(key)
            && (named is Known ==> named->task == found@[i]) by {
            assert(keys[i] == key);
            if named is Known {
                let at = choose|at: int| #[trigger] is_first_text(keys, key, at) && named->task
                    == found@[at];
                if i < at {
                    assert(keys[i] != key);
                } else if at < i {
                    assert(keys[at] != key);
                }
            }
        }
        if named is Known {
            let at = choose|at: int| #[trigger] is_first_text(keys, key, at) && named->task
                == found@[at];
            assert(keys[at] == key);
        }
    }
    let ghost asked = named;
    let error = add_named_task(tasks, catalog, named);
    proof {
        if asked is Fresh {
            let source = TaskSource::New { name: asked->Fresh_name };
            assert(added_or_refused(old(tasks)@, tasks@, old(catalog)@, source, error));
        }
    }
    error
}

/// Whether a task from a source was added, or the reason given why it was not.
pub open spec fn added_or_refused(
    before: Seq<ProjectTaskInput>,
    after: Seq<ProjectTaskInput>,
    catalog: Seq<CreationTask>,
    source: TaskSource,
    error: Option<String>,
) -> bool {
    match refusal(before, source) {
        Some(message) => error is Some && error->0@ == message && after == before,
        None => error is None && after == before.push(after.last()) && just_added(
            after.last(),
            catalog,
            source,
        ),
    }
}

/// Bills all tasks of a project, or none.
pub fn set_all_billable(tasks: &mut Vec<ProjectTaskInput>, billable: bool)
    ensures
        final(tasks).len() == old(tasks).len(),
        forall|i: int|
            #![trigger final(tasks)@[i]]
            0 <= i < old(tasks).len() ==> final(tasks)@[i] == (ProjectTaskInput {
                billable,
                ..old(tasks)@[i]
            }),
{
    let mut i: usize = 0;
    while i < tasks.len()
        invariant
            i <= tasks.len(),
            tasks.len() == old(tasks).len(),
            forall|k: int|
                #![trigger tasks@[k]]
                0 <= k < i ==> tasks@[k] == (ProjectTaskInput { billable, ..old(tasks)@[k] }),
            forall|k: int| i <= k < tasks.len() ==> tasks@[k] == old(tasks)@[k],
        decreases tasks.len() - i,
    {
        tasks[i].billable = billable;
        i += 1;
    }
}

/// Whether the task at `i` is the first of the project with an identity.
pub open spec fn is_task(tasks: Seq<ProjectTaskInput>, id: u128, i: int) -> bool {
    &&& 0 <= i < tasks.len()
    &&& tasks[i].id == id
    &&& forall|k: int| 0 <= k < i ==> (#[trigger] tasks[k]).id != id
}

fn position(tasks: &Vec<ProjectTaskInput>, id: u128) -> (at: Option<usize>)
    ensures
        match at {
            Some(i) => is_task(tasks@, id, i as int) && forall|k: int| #[trigger]
                is_task(tasks@, id, k) ==> k == i,
            None => forall|k: int| !is_task(tasks@, id, k),
        },
{
    let mut i: usize = 0;
    while i < tasks.len()
        invariant
            i <= tasks.len(),
            forall|k: int| 0 <= k < i ==> (#[trigger] tasks@[k]).id != id,
        decreases tasks.len() - i,
    {
        if tasks[i].id == id {
            proof {
                assert forall|k: int| #[trigger] is_task(tasks@, id, k) implies k == i by {
                    if k < i {
                        assert(tasks@[k].id != id);
                    } else if i < k {
                        assert(tasks@[i as int].id != id);
                    }
                }
            }
            return Some(i);
        }
        i += 1;
    }
    None
}

/// What can be changed in the row of a task.
#[derive(Debug)]
pub enum TaskEdit {
    ToggleBillable,
    Rate { value: String },
    Budget { value: String },
    Access { access: TaskAccess },
}

/// A task after a change.
pub open spec fn edited(task: ProjectTaskInput, edit: TaskEdit) -> ProjectTaskInput {
    match edit {
        TaskEdit::ToggleBillable => ProjectTaskInput { billable: !task.billable, ..task },
        TaskEdit::Rate { value } => ProjectTaskInput { rate: value, ..task },
        TaskEdit::Budget { value } => ProjectTaskInput { budget: value, ..task },
        TaskEdit::Access { access } => ProjectTaskInput { access, ..task },
    }
}

/// Changes the first task with an identity; where there is none, nothing changes.
pub fn edit_task(tasks: &mut Vec<ProjectTaskInput>, id: u128, edit: TaskEdit)
    ensures
        final(tasks).len() == old(tasks).len(),
        forall|i: int|
            #![trigger final(tasks)@[i]]
            0 <= i < old(tasks).len() ==> final(tasks)@[i] == (if is_task(old(tasks)@, id, i) {
                edited(old(tasks)@[i], edit)
            } else {
                old(tasks)@[i]
            }),
{
    if let Some(i) = position(tasks, id) {
        match edit {
            TaskEdit::ToggleBillable => {
                let billable = tasks[i].billable;
                tasks[i].billable = !billable;
            },
            TaskEdit::Rate { value } => {
                tasks[i].rate = value;
            },
            TaskEdit::Budget { value } => {
                tasks[i].budget = value;
            },
            TaskEdit::Access { access } => {
                tasks[i].access = access;
            },
        }
    }
}

/// Removes the tasks with an identity.
pub fn remove_task(tasks: &mut Vec<ProjectTaskInput>, id: u128)
    ensures
        final(tasks)@ == old(tasks)@.filter(|task: ProjectTaskInput| task.id != id),
{
    let ghost before = tasks@;
    let ghost keeps = |task: ProjectTaskInput| task.id != id;
    let mut kept: Vec<ProjectTaskInput> = Vec::new();
    let ghost mut i: int = 0;
    proof {
        filter_all(before, keeps);
        assert(before.skip(0) =~= before);
    }
    while tasks.len() > 0
        invariant
            0 <= i <= before.len(),
            keeps == (|task: ProjectTaskInput| task.id != id),
            tasks@ == before.skip(i),
            kept@ == before.take(i).filter(keeps),
        decreases tasks.len(),
    {
        let task = tasks.remove(0);
        proof {
            filter_step(before, i, keeps);
            assert(before.skip(i).remove(0) =~= before.skip(i + 1));
            i = i + 1;
        }
        if task.id != id {
            kept.push(task);
        }
    }
    *tasks = kept;
}

/// What a task of a project is called.
pub fn task_name(task: &ProjectTaskInput, catalog: &Vec<CreationTask>) -> (name: String)
    ensures
        name@ == (match task.source {
            TaskSource::New { name } => name@,
            TaskSource::Existing { task_id } => match task_with(catalog@, task_id) {
                Some(known) => known.name@,
                None => "Unavailable task ("@ + id_text(task_id) + ")"@,
            },
        }),
{
    match &task.source {
        TaskSource::New { name } => name.clone(),
        TaskSource::Existing { task_id } => match find_task(catalog, *task_id) {
            Some(i) => catalog[i].name.clone(),
            None => {
                let mut name = "Unavailable task (".to_owned();
                name.append(id_to_text(*task_id).as_str());
                name.append(")");
                name
            },
        },
    }
}

/// What the access to a task is called.
pub fn access_label(access: &TaskAccess) -> (label: String)
    ensures
        label@ == (match *access {
            TaskAccess::Everyone => "Everyone"@,
            TaskAccess::Restricted { user_ids } => "Restricted ("@ + decimal(user_ids.len() as nat)
                + ")"@,
        }),
{
    match access {
        TaskAccess::Everyone => "Everyone".to_owned(),
        TaskAccess::Restricted { user_ids } => {
            let mut label = "Restricted (".to_owned();
            label.append(decimal_text(user_ids.len() as u128).as_str());
            label.append(")");
            label
        },
    }
}

/// The rate that an empty field of a task stands for, as far as it is known in the
/// project's currency.
pub fn rate_placeholder(
    task: &ProjectTaskInput,
    catalog: &Vec<CreationTask>,
    organization_currency: &str,
    currency: &str,
) -> (placeholder: String)
    ensures
        placeholder@ == (match task.source {
            TaskSource::Existing { task_id } => match task_with(catalog@, task_id) {
                Some(known) => if organization_currency@ == currency@ && known.default_rate_cents
                    is Some {
                    cents_text(known.default_rate_cents->0 as int)
                } else {
                    "Inherit"@
                },
                None => "Inherit"@,
            },
            TaskSource::New { .. } => "Inherit"@,
        }),
{
    if let TaskSource::Existing { task_id } = &task.source {
        if let Some(i) = find_task(catalog, *task_id) {
            if same(organization_currency, currency) {
                if let Some(cents) = catalog[i].default_rate_cents {
                    return format_cents_plain(cents);
                }
            }
        }
    }
    "Inherit".to_owned()
}

/// What the field of a task's budget is called.
pub fn budget_label(mode: BudgetMode, name: &str, currency: &str) -> (label: String)
    ensures
        label@ == (if mode == BudgetMode::FeesPerTask {
            "Budget for "@ + name@ + " ("@ + currency@ + ")"@
        } else {
            "Budget hours for "@ + name@
        }),
{
    if mode == BudgetMode::FeesPerTask {
        let mut label = "Budget for ".to_owned();
        label.append(name);
        label.append(" (");
        label.append(currency);
        label.append(")");
        label
    } else {
        let mut label = "Budget hours for ".to_owned();
        label.append(name);
        label
    }
}

/// Whether an identity stays when one is removed.
pub open spec fn not_id(id: u128) -> spec_fn(u128) -> bool {
    |user_id: u128| user_id != id
}

/// The people of a restricted access after one of them was ticked or unticked.
pub open spec fn toggled(user_ids: Seq<u128>, id: u128) -> Seq<u128> {
    if user_ids.contains(id) {
        user_ids.filter(not_id(id))
    } else {
        user_ids.push(id)
    }
}

/// Removes every occurrence of an identity.
pub fn without_id(ids: &Vec<u128>, id: u128) -> (kept: Vec<u128>)
    ensures
        kept@ == ids@.filter(not_id(id)),
{
    let ghost keeps = not_id(id);
    let mut kept: Vec<u128> = Vec::new();
    let mut i: usize = 0;
    proof {
        filter_all(ids@, keeps);
    }
    while i < ids.len()
        invariant
            i <= ids.len(),
            keeps == not_id(id),
            kept@ == ids@.take(i as int).filter(keeps),
        decreases ids.len() - i,
    {
        proof {
            filter_step(ids@, i as int, keeps);
        }
        if ids[i] != id {
            kept.push(ids[i]);
        }
        i += 1;
    }
    kept
}

/// Ticks a person of a restricted access, or unticks them. An access of everyone stays.
pub fn toggle_access(access: TaskAccess, id: u128) -> (toggled_access: TaskAccess)
    ensures
        match access {
            TaskAccess::Everyone => toggled_access is Everyone,
            TaskAccess::Restricted { user_ids } => toggled_access is Restricted
                && toggled_access->user_ids@ == toggled(user_ids@, id),
        },
{
    match access {
        TaskAccess::Everyone => TaskAccess::Everyone,
        TaskAccess::Restricted { user_ids } => if contains_id(&user_ids, id) {
            TaskAccess::Restricted { user_ids: without_id(&user_ids, id) }
        } else {
            let mut user_ids = user_ids;
            user_ids.push(id);
            TaskAccess::Restricted { user_ids }
        },
    }
}

/// Ticking a person who is not ticked and unticking them leaves the access as it was.
pub proof fn ticking_is_undone(user_ids: Seq<u128>, id: u128)
    requires
        !user_ids.contains(id),
    ensures
        toggled(toggled(user_ids, id), id) == user_ids,
{
    let keeps = not_id(id);
    let ticked = user_ids.push(id);
    assert(ticked.last() == id);
    assert(ticked.contains(id)) by {
        assert(ticked[user_ids.len() as int] == id);
    }
    reveal(Seq::filter);
    assert(ticked.drop_last() =~= user_ids);
    all_kept(user_ids, keeps);
}

proof fn all_kept(ids: Seq<u128>, keeps: spec_fn(u128) -> bool)
    requires
        forall|i: int| 0 <= i < ids.len() ==> keeps(#[trigger] ids[i]),
    ensures
        ids.filter(keeps) == ids,
    decreases ids.len(),
{
    reveal(Seq::filter);
    if ids.len() > 0 {
        let before = ids.drop_last();
        assert forall|i: int| 0 <= i < before.len() implies keeps(#[trigger] before[i]) by {
            assert(before[i] == ids[i]);
        }
        all_kept(before, keeps);
        assert(keeps(ids[ids.len() - 1]));
        assert(before.push(ids.last()) =~= ids);
    }
}

/// The dialog in which the access to a task is set.
#[derive(Debug)]
pub struct AccessDialog {
    /// The task whose access is set; none while the dialog is closed.
    pub task: Option<u128>,
    pub access: TaskAccess,
}

impl AccessDialog {
    /// The dialog while it is closed.
    pub fn new() -> (dialog: AccessDialog)
        ensures
            dialog.task is None,
            dialog.access is Everyone,
    {
        AccessDialog { task: None, access: TaskAccess::Everyone }
    }

    /// Opens the dialog with the access of a task.
    pub fn open(&mut self, tasks: &Vec<ProjectTaskInput>, id: u128)
        ensures
            final(self).task == Some(id),
            forall|i: int| #[trigger]
                is_task(tasks@, id, i) ==> final(self).access.same(tasks@[i].access),
            (forall|k: int| 0 <= k < tasks.len() ==> (#[trigger] tasks@[k]).id != id)
                ==> final(self).access == old(self).access,
    {
        self.task = Some(id);
        match position(tasks, id) {
            Some(i) => {
                self.access = tasks[i].access.copy();
                proof {
                    assert forall|k: int| #[trigger] is_task(tasks@, id, k) implies k == i by {
                        if k < i {
                            assert(tasks@[k].id != id);
                        } else if i < k {
                            assert(tasks@[i as int].id != id);
                        }
                    }
                    assert(tasks@[i as int].id == id);
                }
            },
            None => {
                proof {
                    assert forall|k: int| #[trigger] is_task(tasks@, id, k) implies false by {
                        assert(tasks@[k].id == id);
                    }
                }
            },
        }
    }

    /// Opens the task to everyone, or closes it to all until people are picked.
    pub fn restrict(&mut self, restricted: bool)
        ensures
            final(self).task == old(self).task,
            restricted ==> final(self).access is Restricted && final(self).access->user_ids@.len()
                == 0,
            !restricted ==> final(self).access is Everyone,
    {
        self.access = if restricted {
            TaskAccess::Restricted { user_ids: Vec::new() }
        } else {
            TaskAccess::Everyone
        };
    }

    /// Gives the task the access that was set, and closes the dialog.
    pub fn apply(&mut self, tasks: &mut Vec<ProjectTaskInput>)
        ensures
            final(self).task is None,
            final(self).access == old(self).access,
            final(tasks).len() == old(tasks).len(),
            forall|i: int|
                #![trigger final(tasks)@[i]]
                0 <= i < old(tasks).len() ==> if old(self).task is Some && is_task(
                    old(tasks)@,
                    old(self).task->0,
                    i,
                ) {
                    &&& final(tasks)@[i].access.same(old(self).access)
                    &&& final(tasks)@[i] == (ProjectTaskInput {
                        access: final(tasks)@[i].access,
                        ..old(tasks)@[i]
                    })
                } else {
                    final(tasks)@[i] == old(tasks)@[i]
                },
    {
        if let Some(id) = self.task {
            edit_task(tasks, id, TaskEdit::Access { access: self.access.copy() });
        }
        self.task = None;
    }

    /// Closes the dialog; the access stays as it was.
    pub fn dismiss(&mut self)
        ensures
            *final(self) == (AccessDialog { task: None, ..*old(self) }),
    {
        self.task = None;
    }
}

/// Whether a task of the catalog is selected, so that it is not offered again.
pub fn is_chosen(tasks: &Vec<ProjectTaskInput>, id: u128) -> (chosen: bool)
    ensures
        chosen == has_source(tasks@, TaskSource::Existing { task_id: id }),
{
    contains_source(tasks, &TaskSource::Existing { task_id: id })
}

} // verus!

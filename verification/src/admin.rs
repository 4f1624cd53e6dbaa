//! Managing users and tasks.

use vstd::prelude::*;

verus! {

/// The form in which a user is invited.
#[derive(Debug)]
pub struct UserForm {
    pub shown: bool,
    pub email: String,
    pub name: String,
    pub role: String,
    pub error: Option<String>,
    /// The error of a change to a user who is listed.
    pub row_error: Option<String>,
}

impl UserForm {
    /// Whether nothing is typed.
    pub open spec fn is_empty(self) -> bool {
        &&& self.email@.len() == 0
        &&& self.name@.len() == 0
        &&& self.role@ == "member"@
    }

    /// A form that is closed and empty.
    pub fn new() -> (form: UserForm)
        ensures
            form.is_empty(),
            !form.shown,
            form.error is None,
            form.row_error is None,
    {
        UserForm {
            shown: false,
            email: String::new(),
            name: String::new(),
            role: "member".to_owned(),
            error: None,
            row_error: None,
        }
    }

    /// Takes whether the user was invited: the form is emptied and closed, or says why not
    /// and keeps what was typed.
    pub fn created(&mut self, result: Result<(), String>)
        ensures
            match result {
                Ok(_) => {
                    &&& final(self).is_empty()
                    &&& !final(self).shown
                    &&& final(self).error is None
                    &&& final(self).row_error is None
                },
                Err(message) => *final(self) == (UserForm { error: Some(message), ..*old(self) }),
            },
    {
        match result {
            Ok(_) => {
                *self = UserForm::new();
            },
            Err(message) => {
                self.error = Some(message);
            },
        }
    }

    /// Takes whether a change to a user who is listed was made.
    pub fn changed(&mut self, result: Result<(), String>)
        ensures
            *final(self) == (UserForm {
                row_error: match result {
                    Ok(_) => None,
                    Err(message) => Some(message),
                },
                ..*old(self)
            }),
    {
        self.row_error = match result {
            Ok(_) => None,
            Err(message) => Some(message),
        };
    }
}

/// The form in which a task is created.
#[derive(Debug)]
pub struct TaskForm {
    pub shown: bool,
    pub name: String,
    pub billable: bool,
    pub error: Option<String>,
}

impl TaskForm {
    /// A form that is closed and empty.
    pub fn new() -> (form: TaskForm)
        ensures
            !form.shown,
            form.name@.len() == 0,
            form.billable,
            form.error is None,
    {
        TaskForm { shown: false, name: String::new(), billable: true, error: None }
    }

    /// Takes whether the task was created: the form is emptied and closed, or says why not
    /// and keeps what was typed.
    pub fn created(&mut self, result: Result<(), String>)
        ensures
            match result {
                Ok(_) => {
                    &&& !final(self).shown
                    &&& final(self).name@.len() == 0
                    &&& final(self).billable
                    &&& final(self).error is None
                },
                Err(message) => *final(self) == (TaskForm { error: Some(message), ..*old(self) }),
            },
    {
        match result {
            Ok(_) => {
                *self = TaskForm::new();
            },
            Err(message) => {
                self.error = Some(message);
            },
        }
    }
}

/// The class of the button that switches whether a user is active.
pub fn active_class(active: bool) -> (class: &'static str)
    ensures
        class@ == (if active {
            "btn btn-secondary btn-sm"@
        } else {
            "btn btn-primary btn-sm"@
        }),
{
    if active {
        "btn btn-secondary btn-sm"
    } else {
        "btn btn-primary btn-sm"
    }
}

/// What the button says that switches whether a user is active.
pub fn active_label(active: bool) -> (label: &'static str)
    ensures
        label@ == (if active {
            "Deactivate"@
        } else {
            "Activate"@
        }),
{
    if active {
        "Deactivate"
    } else {
        "Activate"
    }
}

} // verus!

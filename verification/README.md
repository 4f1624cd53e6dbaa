# Horae

The logic of a time tracker that bills for what it tracks: timesheets, projects with their
tasks, teams and budgets, invoices, approvals, reports, imports and plugins. Every rule is
executable Rust with a contract, and Verus proves that the code keeps it.

## Layout

- `src/` is the library. All of it is verified.
  - `date`, `clock`, `money`, `text`, `ids`, `order`, `lists`: days, times of the day, amounts
    and rates, texts, identities, sorting and lists, which the rest is built on.
  - `timesheet`: the views of a week, the grid, the calendar with its lanes and drags, the dialog
    for an entry.
  - `new_project`: drafting and editing a project.
  - `projects`: the list of projects, a project's details, its budget and its tasks.
  - `clients`, `admin`, `approvals`, `reports`: the pages of these names.
  - `invoices`: choosing what to bill, reviewing drafts, editing, recovery after an interruption.
  - `importers`: running an import and showing how it went.
  - `plugin`: which queries a plugin may run, what its host answers, what its manifest says.
  - `render`: what the template of an invoice is filled with.
- `app/` is the rest: the database, the network, the plugins' runtime, Typst, and what is
  measured in floating point.
- `tests/` runs the library on examples.

## What is taken on trust

A few functions of `chrono`, `uuid`, `serde_json` and the standard library are called through
small wrappers, in `date`, `ids`, `plugin::host` and `text`. Each says in its comment which
function it calls and what it claims of it. Everything else is proved.

Proof functions that are public state what holds across several functions: that a written amount
reads back, that no request leaves without having been reviewed, that an entry is never lost from
the calendar, and so on.

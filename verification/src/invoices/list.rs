//! How invoices and their lines are shown.

use crate::clock::clock_text;
use crate::clock::format_hhmm;
use crate::ids::id_text;
use crate::ids::id_to_text;
use crate::money::cents_text;
use crate::money::format_cents_plain;
use crate::projects::list::Client;
use crate::text::trim;
use crate::text::trimmed;
use vstd::prelude::*;

verus! {

/// What became of an invoice.
#[derive(Clone, Copy, PartialEq, Eq, Structural, Debug)]
pub enum InvoiceStatus {
    Draft,
    Sent,
    Paid,
    Void,
}

/// The class of the badge for a status.
pub fn invoice_badge_class(status: InvoiceStatus) -> (class: &'static str)
    ensures
        class@ == (match status {
            InvoiceStatus::Paid => "badge badge-success"@,
            InvoiceStatus::Sent => "badge badge-info"@,
            InvoiceStatus::Void => "badge badge-neutral"@,
            InvoiceStatus::Draft => "badge badge-warning"@,
        }),
{
    match status {
        InvoiceStatus::Paid => "badge badge-success",
        InvoiceStatus::Sent => "badge badge-info",
        InvoiceStatus::Void => "badge badge-neutral",
        InvoiceStatus::Draft => "badge badge-warning",
    }
}

/// What an invoice can become next, and how that is offered.
#[derive(Clone, Copy, PartialEq, Eq, Structural, Debug)]
pub struct Transition {
    pub to: InvoiceStatus,
    pub primary: bool,
}

/// What an invoice can become next: a draft can be sent, what was sent can be paid, and
/// either can be voided.
pub open spec fn next(status: InvoiceStatus) -> Seq<Transition> {
    match status {
        InvoiceStatus::Draft => seq![
            Transition { to: InvoiceStatus::Sent, primary: true },
            Transition { to: InvoiceStatus::Void, primary: false },
        ],
        InvoiceStatus::Sent => seq![
            Transition { to: InvoiceStatus::Paid, primary: true },
            Transition { to: InvoiceStatus::Void, primary: false },
        ],
        _ => Seq::empty(),
    }
}

/// What an invoice can become next.
pub fn transitions(status: InvoiceStatus) -> (offered: Vec<Transition>)
    ensures
        offered@ == next(status),
{
    let mut offered: Vec<Transition> = Vec::new();
    match status {
        InvoiceStatus::Draft => {
            offered.push(Transition { to: InvoiceStatus::Sent, primary: true });
            offered.push(Transition { to: InvoiceStatus::Void, primary: false });
        },
        InvoiceStatus::Sent => {
            offered.push(Transition { to: InvoiceStatus::Paid, primary: true });
            offered.push(Transition { to: InvoiceStatus::Void, primary: false });
        },
        _ => {},
    }
    proof {
        assert(offered@ =~= next(status));
    }
    offered
}

/// The word for a status in a request.
pub open spec fn status_text(status: InvoiceStatus) -> Seq<char> {
    match status {
        InvoiceStatus::Draft => "draft"@,
        InvoiceStatus::Sent => "sent"@,
        InvoiceStatus::Paid => "paid"@,
        InvoiceStatus::Void => "void"@,
    }
}

/// The word for a status in a request.
pub fn status_word(status: InvoiceStatus) -> (word: &'static str)
    ensures
        word@ == status_text(status),
{
    match status {
        InvoiceStatus::Draft => "draft",
        InvoiceStatus::Sent => "sent",
        InvoiceStatus::Paid => "paid",
        InvoiceStatus::Void => "void",
    }
}

/// What the button for a transition says.
pub fn transition_label(to: InvoiceStatus) -> (label: &'static str)
    ensures
        label@ == (match to {
            InvoiceStatus::Sent => "Mark Sent"@,
            InvoiceStatus::Paid => "Mark Paid"@,
            InvoiceStatus::Void => "Void"@,
            InvoiceStatus::Draft => ""@,
        }),
{
    match to {
        InvoiceStatus::Sent => "Mark Sent",
        InvoiceStatus::Paid => "Mark Paid",
        InvoiceStatus::Void => "Void",
        InvoiceStatus::Draft => "",
    }
}

/// Nothing leaves a paid or a void invoice, and nothing becomes a draft again.
pub proof fn settled_invoices_stay(status: InvoiceStatus, i: int)
    requires
        0 <= i < next(status).len(),
    ensures
        status == InvoiceStatus::Draft || status == InvoiceStatus::Sent,
        next(status)[i].to != InvoiceStatus::Draft,
        next(status)[i].to != status,
{
}

/// Whether a change of an invoice can be asked for now.
pub fn can_change(ready: bool, busy: bool, editing: bool) -> (can_change: bool)
    ensures
        can_change == (ready && !busy && !editing),
{
    ready && !busy && !editing
}

/// The page of an invoice.
#[derive(Debug)]
pub struct InvoicePage {
    pub editing: bool,
    pub busy: bool,
    pub error: Option<String>,
}

impl InvoicePage {
    /// The page as it opens.
    pub fn new() -> (page: InvoicePage)
        ensures
            !page.editing,
            !page.busy,
            page.error is None,
    {
        InvoicePage { editing: false, busy: false, error: None }
    }

    /// Begins to change the status of the invoice: one change at a time, none while it is
    /// edited, and none before what became of earlier requests is known.
    pub fn begin_change(&mut self, ready: bool, to: InvoiceStatus) -> (sent: Option<&'static str>)
        ensures
            sent is Some <==> ready && !old(self).busy && !old(self).editing,
            sent is Some ==> sent->0@ == status_text(to) && *final(self) == (InvoicePage {
                busy: true,
                error: None,
                ..*old(self)
            }),
            sent is None ==> *final(self) == *old(self),
    {
        if !can_change(ready, self.busy, self.editing) {
            return None;
        }
        self.error = None;
        self.busy = true;
        Some(status_word(to))
    }

    /// Takes what became of the change; the invoice, as is said, is loaded again.
    pub fn changed(&mut self, result: Result<(), String>) -> (reload: bool)
        ensures
            reload == (result is Ok),
            *final(self) == (InvoicePage {
                busy: false,
                error: match result {
                    Ok(_) => old(self).error,
                    Err(message) => Some(message),
                },
                ..*old(self)
            }),
    {
        self.busy = false;
        match result {
            Ok(_) => true,
            Err(message) => {
                self.error = Some(message);
                false
            },
        }
    }
}

/// Where the document of an invoice is.
pub fn pdf_url(id: u128) -> (url: String)
    ensures
        url@ == "/api/invoices/"@ + id_text(id) + "/export/pdf"@,
{
    let mut url = "/api/invoices/".to_owned();
    url.append(id_to_text(id).as_str());
    url.append("/export/pdf");
    url
}

/// Opens or closes the form for a new invoice, unless a request is under way or the outcome of
/// earlier ones is not known yet.
pub fn toggle_form(shown: bool, busy: bool, ready: bool) -> (now_shown: bool)
    ensures
        now_shown == (if !busy && ready {
            !shown
        } else {
            shown
        }),
{
    if !busy && ready {
        !shown
    } else {
        shown
    }
}

/// Whether the client at `i` is the first with an identity.
pub open spec fn is_client(clients: Seq<Client>, id: u128, i: int) -> bool {
    &&& 0 <= i < clients.len()
    &&& clients[i].id == id
    &&& forall|k: int| 0 <= k < i ==> (#[trigger] clients[k]).id != id
}

/// The name of a client: its identity where it is not known.
pub fn client_name(clients: &Vec<Client>, id: u128) -> (name: String)
    ensures
        (forall|k: int| 0 <= k < clients.len() ==> (#[trigger] clients@[k]).id != id) ==> name@
            == id_text(id),
        forall|i: int| #[trigger] is_client(clients@, id, i) ==> name@ == clients@[i].name@,
{
    let mut i: usize = 0;
    while i < clients.len()
        invariant
            i <= clients.len(),
            forall|k: int| 0 <= k < i ==> (#[trigger] clients@[k]).id != id,
        decreases clients.len() - i,
    {
        if clients[i].id == id {
            proof {
                assert forall|k: int| #[trigger] is_client(clients@, id, k) implies k == i by {
                    if k < i {
                        assert(clients@[k].id != id);
                    } else if i < k {
                        assert(clients@[i as int].id != id);
                    }
                }
            }
            return clients[i].name.clone();
        }
        i += 1;
    }
    id_to_text(id)
}

/// The clients to choose from, each with its label, after a line that asks for one.
pub fn client_options(clients: &Vec<Client>) -> (options: Vec<(String, String)>)
    ensures
        options.len() == clients.len() + 1,
        options@[0].0@.len() == 0,
        options@[0].1@ == "Select a client…"@,
        forall|i: int|
            1 <= i < options.len() ==> (#[trigger] options@[i]).0@ == id_text(clients@[i - 1].id)
                && options@[i].1@ == clients@[i - 1].name@,
{
    let mut options: Vec<(String, String)> = Vec::new();
    options.push((String::new(), "Select a client…".to_owned()));
    let mut i: usize = 0;
    while i < clients.len()
        invariant
            i <= clients.len(),
            options.len() == i + 1,
            options@[0].0@.len() == 0,
            options@[0].1@ == "Select a client…"@,
            forall|k: int|
                1 <= k < options.len() ==> (#[trigger] options@[k]).0@ == id_text(
                    clients@[k - 1].id,
                ) && options@[k].1@ == clients@[k - 1].name@,
        decreases clients.len() - i,
    {
        options.push((id_to_text(clients[i].id), clients[i].name.clone()));
        i += 1;
    }
    options
}

/// An amount with its currency.
pub fn amount_label(currency: &str, cents: i64) -> (label: String)
    ensures
        label@ == trimmed(currency@) + " "@ + cents_text(cents as int),
{
    let mut label = trim(currency);
    label.append(" ");
    label.append(format_cents_plain(cents).as_str());
    label
}

/// The time of a line, where it has one.
pub fn minutes_label(minutes: Option<u32>) -> (label: String)
    ensures
        label@ == (match minutes {
            Some(minutes) => clock_text(minutes as nat),
            None => "—"@,
        }),
{
    match minutes {
        Some(minutes) => format_hhmm(minutes as u64),
        None => "—".to_owned(),
    }
}

/// The rate of a line, where it has one.
pub fn rate_label(rate_cents: Option<i64>) -> (label: String)
    ensures
        label@ == (match rate_cents {
            Some(rate) => cents_text(rate as int) + "/hr"@,
            None => "—"@,
        }),
{
    match rate_cents {
        Some(rate) => {
            let mut label = format_cents_plain(rate);
            label.append("/hr");
            label
        },
        None => "—".to_owned(),
    }
}

/// What is said of the rest of a fee: a negative one is over-invoiced.
pub fn remaining_label(remaining_cents: i64) -> (label: &'static str)
    ensures
        label@ == (if remaining_cents < 0 {
            "Over-invoiced: "@
        } else {
            "Available: "@
        }),
{
    if remaining_cents < 0 {
        "Over-invoiced: "
    } else {
        "Available: "
    }
}

} // verus!

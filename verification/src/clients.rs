//! The form of a client.

use crate::lists::opt_view;
use vstd::prelude::*;

verus! {

/// A client as it is listed.
#[derive(Debug)]
pub struct ClientRecord {
    pub id: u128,
    pub name: String,
    pub currency: String,
    pub address: Option<String>,
    pub tax_id: Option<String>,
    pub active: bool,
}

/// The form in which a client is created or edited.
#[derive(Debug)]
pub struct ClientForm {
    pub shown: bool,
    /// The client that is edited; none while one is created.
    pub editing: Option<u128>,
    pub name: String,
    pub currency: String,
    pub address: String,
    pub tax_id: String,
    pub error: Option<String>,
}

/// A request to save a client.
#[derive(Debug)]
pub struct ClientRequest {
    pub id: Option<u128>,
    pub name: String,
    pub currency: String,
    pub address: Option<String>,
    pub tax_id: Option<String>,
}

/// A text that is optional: none where it is empty.
pub open spec fn optional(text: Seq<char>) -> Option<Seq<char>> {
    if text.len() == 0 {
        None
    } else {
        Some(text)
    }
}

fn optional_text(text: &String) -> (optional_text: Option<String>)
    ensures
        opt_view(optional_text) == optional(text@),
{
    if text.as_str().is_empty() {
        None
    } else {
        Some(text.clone())
    }
}

fn text_or_empty(text: &Option<String>) -> (filled: String)
    ensures
        filled@ == (match *text {
            Some(text) => text@,
            None => Seq::<char>::empty(),
        }),
{
    match text {
        Some(text) => text.clone(),
        None => String::new(),
    }
}

impl ClientForm {
    /// Whether the form is closed and empty.
    pub open spec fn is_reset(self) -> bool {
        &&& !self.shown
        &&& self.editing is None
        &&& self.name@.len() == 0
        &&& self.currency@ == "USD"@
        &&& self.address@.len() == 0
        &&& self.tax_id@.len() == 0
        &&& self.error is None
    }

    /// A form that is closed and empty.
    pub fn reset() -> (form: ClientForm)
        ensures
            form.is_reset(),
    {
        ClientForm {
            shown: false,
            editing: None,
            name: String::new(),
            currency: "USD".to_owned(),
            address: String::new(),
            tax_id: String::new(),
            error: None,
        }
    }

    /// Opens the form for a new client, or closes and empties it.
    pub fn toggle(&mut self)
        ensures
            old(self).shown ==> final(self).is_reset(),
            !old(self).shown ==> *final(self) == (ClientForm {
                editing: None,
                shown: true,
                ..*old(self)
            }),
    {
        if self.shown {
            *self = ClientForm::reset();
        } else {
            self.editing = None;
            self.shown = true;
        }
    }

    /// Opens the form with a client.
    pub fn edit(&mut self, client: &ClientRecord)
        ensures
            final(self).shown,
            final(self).editing == Some(client.id),
            final(self).name@ == client.name@,
            final(self).currency@ == client.currency@,
            final(self).address@ == (match client.address {
                Some(address) => address@,
                None => Seq::<char>::empty(),
            }),
            final(self).tax_id@ == (match client.tax_id {
                Some(tax_id) => tax_id@,
                None => Seq::<char>::empty(),
            }),
            final(self).error is None,
    {
        self.editing = Some(client.id);
        self.name = client.name.clone();
        self.currency = client.currency.clone();
        self.address = text_or_empty(&client.address);
        self.tax_id = text_or_empty(&client.tax_id);
        self.error = None;
        self.shown = true;
    }

    /// The request to save what is typed.
    pub fn request(&self) -> (request: ClientRequest)
        ensures
            request.id == self.editing,
            request.name@ == self.name@,
            request.currency@ == self.currency@,
            opt_view(request.address) == optional(self.address@),
            opt_view(request.tax_id) == optional(self.tax_id@),
    {
        ClientRequest {
            id: self.editing,
            name: self.name.clone(),
            currency: self.currency.clone(),
            address: optional_text(&self.address),
            tax_id: optional_text(&self.tax_id),
        }
    }

    /// Takes whether the client was saved.
    pub fn saved(&mut self, result: Result<(), String>)
        ensures
            match result {
                Ok(_) => final(self).is_reset(),
                Err(message) => *final(self) == (ClientForm {
                    error: Some(message),
                    ..*old(self)
                }),
            },
    {
        match result {
            Ok(_) => {
                *self = ClientForm::reset();
            },
            Err(message) => {
                self.error = Some(message);
            },
        }
    }

    /// The title of the form.
    pub fn title(&self) -> (title: &'static str)
        ensures
            title@ == (if self.editing is Some {
                "Edit Client"@
            } else {
                "New Client"@
            }),
    {
        if self.editing.is_some() {
            "Edit Client"
        } else {
            "New Client"
        }
    }
}

/// A client that is opened and saved as it is keeps its address and its tax number, unless
/// one of them is there but empty.
pub proof fn unchanged_clients_stay(address: Option<Seq<char>>)
    requires
        address is Some ==> address->0.len() > 0,
    ensures
        optional(
            match address {
                Some(address) => address,
                None => Seq::empty(),
            },
        ) == address,
{
}

} // verus!

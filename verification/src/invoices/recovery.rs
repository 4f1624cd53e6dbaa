//! Recovering a request of an invoice whose outcome is open.

use crate::ids::id_text;
use crate::ids::id_to_text;
use crate::invoices::editing::InvoiceDraftSave;
use crate::invoices::preparation::Generation;
use crate::new_project::fields::is_definite_rejection;
use crate::new_project::fields::RequestError;
use vstd::prelude::*;
use vstd::utf8::encode_utf8;

verus! {

/// The most bytes that are kept of a request: 512 KiB.
pub const RECOVERY_LIMIT: usize = 524288;

/// A request of an invoice whose outcome is open.
#[derive(Debug)]
pub enum PendingInvoice {
    Generate { generation: Generation },
    Save { invoice_id: u128, request: InvoiceDraftSave },
}

impl PendingInvoice {
    /// The invoice that a request is about once it was carried out: the one that came of
    /// it, or the one that was saved.
    pub fn outcome(&self, created: u128) -> (invoice: u128)
        ensures
            invoice == (match *self {
                PendingInvoice::Generate { .. } => created,
                PendingInvoice::Save { invoice_id, .. } => invoice_id,
            }),
    {
        match self {
            PendingInvoice::Generate { .. } => created,
            PendingInvoice::Save { invoice_id, .. } => *invoice_id,
        }
    }
}

/// Refuses a record that is too long to be kept.
pub fn check_size(value: &str) -> (kept: Result<(), &'static str>)
    ensures
        kept is Ok <==> encode_utf8(value@).len() <= 524288,
        kept is Err ==> kept->Err_0@ == "Invoice recovery data exceeds 512 KiB."@,
{
    if value.as_bytes().len() > RECOVERY_LIMIT {
        Err("Invoice recovery data exceeds 512 KiB.")
    } else {
        Ok(())
    }
}

/// The record that was found where one is kept, if there is one and it is not too long.
pub fn take_record(value: Option<String>) -> (record: Result<Option<String>, &'static str>)
    ensures
        match record {
            Ok(record) => record == value && (value is Some ==> encode_utf8(value->0@).len()
                <= 524288),
            Err(message) => value is Some && encode_utf8(value->0@).len() > 524288 && message@
                == "Invoice recovery data exceeds 512 KiB."@,
        },
{
    match value {
        Some(value) => match check_size(value.as_str()) {
            Ok(_) => Ok(Some(value)),
            Err(message) => Err(message),
        },
        None => Ok(None),
    }
}

/// What can go wrong with a record, apart from its length.
#[derive(Clone, Copy, PartialEq, Eq, Structural, Debug)]
pub enum RecordFault {
    NotEncoded,
    NotReached,
    NotAcknowledged,
    NotRead,
    NotDecoded,
}

/// What is said of a fault. A record that cannot be decoded is never given up by itself.
pub fn fault_message(fault: RecordFault) -> (message: &'static str)
    ensures
        message@ == (match fault {
            RecordFault::NotEncoded => "Cannot encode invoice recovery data."@,
            RecordFault::NotReached => "Cannot access invoice recovery storage."@,
            RecordFault::NotAcknowledged => "Cannot acknowledge invoice recovery storage."@,
            RecordFault::NotRead => "Cannot read invoice recovery storage."@,
            RecordFault::NotDecoded => "Invoice recovery data is invalid. Keep this tab and check saved invoices before clearing browser data."@,
        }),
{
    match fault {
        RecordFault::NotEncoded => "Cannot encode invoice recovery data.",
        RecordFault::NotReached => "Cannot access invoice recovery storage.",
        RecordFault::NotAcknowledged => "Cannot acknowledge invoice recovery storage.",
        RecordFault::NotRead => "Cannot read invoice recovery storage.",
        RecordFault::NotDecoded => "Invoice recovery data is invalid. Keep this tab and check saved invoices before clearing browser data.",
    }
}

/// Where the record of a user of an organization is kept; only managers have one.
pub fn storage_key(manager: bool, org_id: u128, user_id: u128) -> (key: Result<
    String,
    &'static str,
>)
    ensures
        match key {
            Ok(key) => manager && key@ == "horae-invoice-request:v1:"@ + id_text(org_id) + ":"@
                + id_text(user_id),
            Err(message) => !manager && message@ == "Invoices require manager access."@,
        },
{
    if !manager {
        return Err("Invoices require manager access.");
    }
    let mut key = "horae-invoice-request:v1:".to_owned();
    key.append(id_to_text(org_id).as_str());
    key.append(":");
    key.append(id_to_text(user_id).as_str());
    Ok(key)
}

/// What is to be done next while a request may be open.
#[derive(Clone, Copy, PartialEq, Eq, Structural, Debug)]
pub enum GateStep {
    /// Nothing.
    Rest,
    /// The record is removed.
    Clear,
    /// An invoice is opened.
    Open { id: u128 },
}

/// What stands before invoices: nothing else is done while the outcome of a request is open.
#[derive(Debug)]
pub struct RecoveryGate {
    pub pending: Option<PendingInvoice>,
    pub loaded: bool,
    pub loading_error: Option<String>,
    /// The invoice that a request came to, while its record is removed.
    pub recovered: Option<u128>,
    pub busy: bool,
    pub rejected: bool,
    pub error: Option<String>,
}

impl RecoveryGate {
    /// One that has not looked for a record yet.
    pub fn new() -> (gate: RecoveryGate)
        ensures
            gate.pending is None,
            !gate.loaded,
            gate.loading_error is None,
            gate.recovered is None,
            !gate.busy,
            !gate.rejected,
            gate.error is None,
    {
        RecoveryGate {
            pending: None,
            loaded: false,
            loading_error: None,
            recovered: None,
            busy: false,
            rejected: false,
            error: None,
        }
    }

    /// Begins to look for a record.
    pub fn begin_loading(&mut self)
        ensures
            *final(self) == (RecoveryGate { loaded: false, loading_error: None, ..*old(self) }),
    {
        self.loaded = false;
        self.loading_error = None;
    }

    /// Takes the record that was found, if there is one.
    pub fn found(&mut self, result: Result<Option<PendingInvoice>, String>)
        ensures
            match result {
                Ok(pending) => *final(self) == (RecoveryGate {
                    pending,
                    loaded: true,
                    ..*old(self)
                }),
                Err(message) => *final(self) == (RecoveryGate {
                    loading_error: Some(message),
                    ..*old(self)
                }),
            },
    {
        match result {
            Ok(pending) => {
                self.pending = pending;
                self.loaded = true;
            },
            Err(message) => {
                self.loading_error = Some(message);
            },
        }
    }

    /// Whether invoices can be worked on: the record was looked for and there is none.
    pub fn open(&self) -> (open: bool)
        ensures
            open == (self.loaded && self.pending is None),
    {
        self.loaded && self.pending.is_none()
    }

    /// Begins to send the request again, unless one is awaited: whether it is to be sent.
    pub fn recover(&mut self) -> (send: bool)
        ensures
            send == (!old(self).busy && old(self).pending is Some),
            !send ==> *final(self) == *old(self),
            send ==> *final(self) == (RecoveryGate { busy: true, error: None, ..*old(self) }),
    {
        if self.busy || self.pending.is_none() {
            return false;
        }
        self.busy = true;
        self.error = None;
        true
    }

    /// Takes what became of the request: its record is removed once it was carried out, and
    /// kept otherwise.
    pub fn submitted(&mut self, result: Result<u128, RequestError>, shown: String) -> (step: GateStep)
        ensures
            match result {
                Ok(id) => step == GateStep::Clear && *final(self) == (RecoveryGate {
                    recovered: Some(id),
                    ..*old(self)
                }),
                Err(error) => step == GateStep::Rest && *final(self) == (RecoveryGate {
                    rejected: error.refused(),
                    error: Some(shown),
                    busy: false,
                    ..*old(self)
                }),
            },
    {
        match result {
            Ok(id) => {
                self.recovered = Some(id);
                GateStep::Clear
            },
            Err(error) => {
                self.rejected = is_definite_rejection(&error);
                self.error = Some(shown);
                self.busy = false;
                GateStep::Rest
            },
        }
    }

    /// Begins to drop a request that was refused for certain: whether its record is to be
    /// removed. One whose outcome is open is never dropped.
    pub fn discard(&mut self) -> (step: GateStep)
        ensures
            step == (if old(self).rejected && !old(self).busy {
                GateStep::Clear
            } else {
                GateStep::Rest
            }),
            step == GateStep::Rest ==> *final(self) == *old(self),
            step == GateStep::Clear ==> *final(self) == (RecoveryGate { busy: true, ..*old(self) }),
    {
        if self.rejected && !self.busy {
            self.busy = true;
            GateStep::Clear
        } else {
            GateStep::Rest
        }
    }

    /// Takes whether the record was removed. What was recovered is opened then.
    pub fn cleared(&mut self, result: Result<(), String>) -> (step: GateStep)
        ensures
            match result {
                Ok(_) => {
                    &&& step == (match old(self).recovered {
                        Some(id) => GateStep::Open { id },
                        None => GateStep::Rest,
                    })
                    &&& *final(self) == (RecoveryGate {
                        pending: None,
                        recovered: None,
                        busy: false,
                        ..*old(self)
                    })
                },
                Err(message) => {
                    &&& step == GateStep::Rest
                    &&& final(self).error is Some
                    &&& final(self).error->0@ == (if old(self).recovered is Some {
                        "The invoice is saved, but recovery could not be cleared: "@ + message@
                    } else {
                        message@
                    })
                    &&& *final(self) == (RecoveryGate {
                        recovered: None,
                        error: final(self).error,
                        busy: false,
                        ..*old(self)
                    })
                },
            },
    {
        let recovered = self.recovered;
        self.recovered = None;
        self.busy = false;
        match result {
            Ok(_) => {
                self.pending = None;
                match recovered {
                    Some(id) => GateStep::Open { id },
                    None => GateStep::Rest,
                }
            },
            Err(message) => {
                if recovered.is_some() {
                    let mut shown =
                        "The invoice is saved, but recovery could not be cleared: ".to_owned();
                    shown.append(message.as_str());
                    self.error = Some(shown);
                } else {
                    self.error = Some(message);
                }
                GateStep::Rest
            },
        }
    }

    /// Whether leaving the page would lose something, as a word.
    pub fn editor_state(&self) -> (state: &'static str)
        ensures
            state@ == (if self.rejected && !self.busy {
                "clean"@
            } else {
                "pending"@
            }),
    {
        if self.rejected && !self.busy {
            "clean"
        } else {
            "pending"
        }
    }
}

} // verus!

//! Editing the values and the fees of a draft invoice.

use crate::ids::new_id;
use crate::invoices::defaults_form::fields_from;
use crate::invoices::defaults_form::parse_fields;
use crate::invoices::defaults_form::read_fields;
use crate::invoices::defaults_form::storable;
use crate::invoices::defaults_form::written;
use crate::invoices::defaults_form::written_fields_read_back;
use crate::invoices::defaults_form::Defaults;
use crate::invoices::defaults_form::Fields;
use crate::invoices::defaults_form::InvoiceDefaults;
use crate::invoices::defaults_form::InvoiceDefaultsInput;
use crate::invoices::fees::describes;
use crate::invoices::fees::is_description;
use crate::invoices::preparation::excess_text;
use crate::lists::views;
use crate::money::cents_read_back;
use crate::money::cents_text;
use crate::money::format_cents_plain;
use crate::money::parse_cents;
use crate::money::parsed_cents;
use crate::new_project::fields::is_definite_rejection;
use crate::new_project::fields::RequestError;
use crate::text::same;
use crate::text::trim;
use crate::text::trimmed;
use vstd::prelude::*;

verus! {

/// A fee of a draft invoice, as it is typed.
#[derive(Debug)]
pub struct FeeLineInput {
    pub id: u128,
    pub description: String,
    pub amount: String,
}

/// A fee of a draft invoice.
#[derive(Debug)]
pub struct InvoiceFeeEdit {
    pub line_id: u128,
    pub description: String,
    pub amount_cents: i64,
}

/// What a fee of a draft invoice is.
pub struct FeeValue {
    pub line_id: u128,
    pub description: Seq<char>,
    pub amount_cents: i64,
}

impl View for InvoiceFeeEdit {
    type V = FeeValue;

    open spec fn view(&self) -> FeeValue {
        FeeValue {
            line_id: self.line_id,
            description: self.description@,
            amount_cents: self.amount_cents,
        }
    }
}

/// What fees are.
pub open spec fn fee_values(fees: Seq<InvoiceFeeEdit>) -> Seq<FeeValue> {
    Seq::new(fees.len(), |i: int| fees[i]@)
}

/// The values of a draft invoice over a revision.
#[derive(Debug)]
pub struct InvoiceDraftEdit {
    pub revision: i64,
    pub defaults: InvoiceDefaults,
    pub fees: Vec<InvoiceFeeEdit>,
}

/// What the values of a draft invoice are.
pub struct DraftEdit {
    pub revision: i64,
    pub defaults: Defaults,
    pub fees: Seq<FeeValue>,
}

impl View for InvoiceDraftEdit {
    type V = DraftEdit;

    open spec fn view(&self) -> DraftEdit {
        DraftEdit {
            revision: self.revision,
            defaults: self.defaults@,
            fees: fee_values(self.fees@),
        }
    }
}

impl InvoiceDraftEdit {
    /// Whether two drafts have the same values.
    pub fn equals(&self, other: &InvoiceDraftEdit) -> (equal: bool)
        ensures
            equal == (self@ == other@),
    {
        if self.revision != other.revision || !self.defaults.equals(&other.defaults)
            || self.fees.len() != other.fees.len() {
            proof {
                if self.fees.len() != other.fees.len() {
                    assert(fee_values(self.fees@).len() != fee_values(other.fees@).len());
                }
            }
            return false;
        }
        let mut i: usize = 0;
        while i < self.fees.len()
            invariant
                i <= self.fees.len(),
                self.fees.len() == other.fees.len(),
                forall|k: int| 0 <= k < i ==> (#[trigger] self.fees@[k])@ == other.fees@[k]@,
            decreases self.fees.len() - i,
        {
            let a = &self.fees[i];
            let b = &other.fees[i];
            if a.line_id != b.line_id || !same(a.description.as_str(), b.description.as_str())
                || a.amount_cents != b.amount_cents {
                proof {
                    assert(fee_values(self.fees@)[i as int] != fee_values(other.fees@)[i as int]);
                }
                return false;
            }
            i += 1;
        }
        proof {
            assert(fee_values(self.fees@) =~= fee_values(other.fees@));
        }
        true
    }

    /// A copy with the same values.
    pub fn copy(&self) -> (copy: InvoiceDraftEdit)
        ensures
            copy@ == self@,
    {
        let mut fees: Vec<InvoiceFeeEdit> = Vec::new();
        let mut i: usize = 0;
        while i < self.fees.len()
            invariant
                i <= self.fees.len(),
                fees.len() == i,
                forall|k: int| 0 <= k < i ==> (#[trigger] fees@[k])@ == self.fees@[k]@,
            decreases self.fees.len() - i,
        {
            let fee = &self.fees[i];
            fees.push(
                InvoiceFeeEdit {
                    line_id: fee.line_id,
                    description: fee.description.clone(),
                    amount_cents: fee.amount_cents,
                },
            );
            i += 1;
        }
        proof {
            assert(fee_values(fees@) =~= fee_values(self.fees@));
        }
        InvoiceDraftEdit { revision: self.revision, defaults: self.defaults.clone(), fees }
    }
}

/// What a fee that is typed stands for, or why it is not taken.
pub open spec fn read_line(fee: FeeLineInput) -> Result<FeeValue, Seq<char>> {
    let amount = parsed_cents(fee.amount@);
    if !is_description(fee.description@) {
        Err("Fee descriptions must contain 1–1000 characters without NUL."@)
    } else if amount is None {
        Err("Enter an exact fee amount with at most two decimal places."@)
    } else if amount->0 < 0 {
        Err("Fee amounts cannot be negative."@)
    } else {
        Ok(FeeValue { line_id: fee.id, description: fee.description@, amount_cents: amount->0 })
    }
}

/// What fees that are typed stand for, or why the first that is not taken is not.
pub open spec fn read_lines(fees: Seq<FeeLineInput>) -> Result<Seq<FeeValue>, Seq<char>>
    decreases fees.len(),
{
    if fees.len() == 0 {
        Ok(Seq::empty())
    } else {
        match read_lines(fees.drop_last()) {
            Err(message) => Err(message),
            Ok(values) => match read_line(fees.last()) {
                Err(message) => Err(message),
                Ok(value) => Ok(values.push(value)),
            },
        }
    }
}

/// What a form stands for, or why it is not taken.
pub open spec fn read_edit(revision: i64, fields: Fields, fees: Seq<FeeLineInput>) -> Result<
    DraftEdit,
    Seq<char>,
> {
    match read_fields(fields) {
        Err(message) => Err(message),
        Ok(defaults) => match read_lines(fees) {
            Err(message) => Err(message),
            Ok(fees) => Ok(DraftEdit { revision, defaults, fees }),
        },
    }
}

fn parse_line(fee: &FeeLineInput) -> (edit: Result<InvoiceFeeEdit, String>)
    ensures
        match edit {
            Ok(edit) => read_line(*fee) == Ok::<FeeValue, Seq<char>>(edit@),
            Err(message) => read_line(*fee) == Err::<FeeValue, Seq<char>>(message@),
        },
{
    if !describes(fee.description.as_str()) {
        return Err("Fee descriptions must contain 1–1000 characters without NUL.".to_owned());
    }
    match parse_cents(fee.amount.as_str()) {
        None => Err("Enter an exact fee amount with at most two decimal places.".to_owned()),
        Some(amount_cents) => if amount_cents < 0 {
            Err("Fee amounts cannot be negative.".to_owned())
        } else {
            Ok(
                InvoiceFeeEdit {
                    line_id: fee.id,
                    description: fee.description.clone(),
                    amount_cents,
                },
            )
        },
    }
}

proof fn first_error_stays(fees: Seq<FeeLineInput>, i: int)
    requires
        0 <= i <= fees.len(),
        read_lines(fees.take(i)) is Err,
    ensures
        read_lines(fees) == read_lines(fees.take(i)),
    decreases fees.len() - i,
{
    if i < fees.len() {
        assert(fees.take(i + 1).drop_last() =~= fees.take(i));
        first_error_stays(fees, i + 1);
    } else {
        assert(fees.take(i) =~= fees);
    }
}

/// Reads the values of a draft invoice; an error is the first that is found.
pub fn parse_edit(revision: i64, fields: &InvoiceDefaultsInput, fees: &Vec<FeeLineInput>) -> (edit:
    Result<InvoiceDraftEdit, String>)
    ensures
        match edit {
            Ok(edit) => read_edit(revision, fields@, fees@) == Ok::<DraftEdit, Seq<char>>(edit@),
            Err(message) => read_edit(revision, fields@, fees@) == Err::<DraftEdit, Seq<char>>(
                message@,
            ),
        },
{
    let defaults = match parse_fields(fields) {
        Ok(defaults) => defaults,
        Err(message) => {
            return Err(message);
        },
    };
    let mut edits: Vec<InvoiceFeeEdit> = Vec::new();
    let mut i: usize = 0;
    proof {
        assert(fees@.take(0) =~= Seq::<FeeLineInput>::empty());
        assert(fee_values(edits@) =~= Seq::<FeeValue>::empty());
    }
    while i < fees.len()
        invariant
            i <= fees.len(),
            read_fields(fields@) is Ok,
            read_lines(fees@.take(i as int)) == Ok::<Seq<FeeValue>, Seq<char>>(
                fee_values(edits@),
            ),
        decreases fees.len() - i,
    {
        let ghost before = edits@;
        proof {
            assert(fees@.take(i + 1).drop_last() =~= fees@.take(i as int));
            assert(fees@.take(i + 1).last() == fees@[i as int]);
        }
        match parse_line(&fees[i]) {
            Ok(edit) => {
                let ghost value = edit@;
                edits.push(edit);
                proof {
                    assert(fee_values(edits@) =~= fee_values(before).push(value));
                }
            },
            Err(message) => {
                proof {
                    first_error_stays(fees@, i + 1);
                }
                return Err(message);
            },
        }
        i += 1;
    }
    proof {
        assert(fees@.take(fees.len() as int) =~= fees@);
    }
    Ok(InvoiceDraftEdit { revision, defaults, fees: edits })
}

/// What the changes of a fee come to, in cents.
#[derive(Debug)]
pub struct FeeReview {
    pub line_id: u128,
    pub period_key: String,
    pub agreed_cents: i64,
    pub other_invoiced_cents: i64,
    pub net_cents: i64,
    pub remaining_cents: i64,
    pub excess_cents: i64,
}

impl Clone for FeeReview {
    fn clone(&self) -> (copy: Self)
        ensures
            copy == *self,
    {
        FeeReview {
            line_id: self.line_id,
            period_key: self.period_key.clone(),
            agreed_cents: self.agreed_cents,
            other_invoiced_cents: self.other_invoiced_cents,
            net_cents: self.net_cents,
            remaining_cents: self.remaining_cents,
            excess_cents: self.excess_cents,
        }
    }
}

/// What the changes of a draft invoice come to, in cents.
#[derive(Debug)]
pub struct InvoiceEditReview {
    pub total_cents: i64,
    pub fees: Vec<FeeReview>,
}

impl InvoiceEditReview {
    /// Whether two reviews are the same.
    pub open spec fn same(self, other: InvoiceEditReview) -> bool {
        self.total_cents == other.total_cents && self.fees@ == other.fees@
    }

    /// A copy with the same amounts.
    pub fn copy(&self) -> (copy: InvoiceEditReview)
        ensures
            copy.same(*self),
    {
        let mut fees: Vec<FeeReview> = Vec::new();
        let mut i: usize = 0;
        while i < self.fees.len()
            invariant
                i <= self.fees.len(),
                fees.len() == i,
                forall|k: int| 0 <= k < i ==> #[trigger] fees@[k] == self.fees@[k],
            decreases self.fees.len() - i,
        {
            fees.push(self.fees[i].clone());
            i += 1;
        }
        proof {
            assert(fees@ =~= self.fees@);
        }
        InvoiceEditReview { total_cents: self.total_cents, fees }
    }

    /// Whether some fee is invoiced beyond what was agreed.
    pub open spec fn exceeds(self) -> bool {
        exists|i: int| 0 <= i < self.fees.len() && (#[trigger] self.fees@[i]).excess_cents > 0
    }

    /// Whether some fee is invoiced beyond what was agreed.
    pub fn has_excess(&self) -> (excess: bool)
        ensures
            excess == self.exceeds(),
    {
        let mut i: usize = 0;
        while i < self.fees.len()
            invariant
                i <= self.fees.len(),
                forall|k: int| 0 <= k < i ==> (#[trigger] self.fees@[k]).excess_cents <= 0,
            decreases self.fees.len() - i,
        {
            if self.fees[i].excess_cents > 0 {
                return true;
            }
            i += 1;
        }
        false
    }
}

/// That a fee may be invoiced beyond what was agreed, by an exact amount.
#[derive(Clone, Copy, PartialEq, Eq, Structural, Debug)]
pub struct InvoiceExcessConfirmation {
    pub line_id: u128,
    pub excess_cents: i64,
}

/// The excess of each fee that has one, in their order.
pub open spec fn excesses(fees: Seq<FeeReview>) -> Seq<InvoiceExcessConfirmation>
    decreases fees.len(),
{
    if fees.len() == 0 {
        Seq::empty()
    } else {
        let before = excesses(fees.drop_last());
        if fees.last().excess_cents > 0 {
            before.push(
                InvoiceExcessConfirmation {
                    line_id: fees.last().line_id,
                    excess_cents: fees.last().excess_cents,
                },
            )
        } else {
            before
        }
    }
}

/// The excess of each fee that has one, in their order.
pub fn confirmed_excess(fees: &Vec<FeeReview>) -> (confirmed: Vec<InvoiceExcessConfirmation>)
    ensures
        confirmed@ == excesses(fees@),
{
    let mut confirmed: Vec<InvoiceExcessConfirmation> = Vec::new();
    let mut i: usize = 0;
    proof {
        assert(fees@.take(0) =~= Seq::<FeeReview>::empty());
    }
    while i < fees.len()
        invariant
            i <= fees.len(),
            confirmed@ == excesses(fees@.take(i as int)),
        decreases fees.len() - i,
    {
        proof {
            assert(fees@.take(i + 1).drop_last() =~= fees@.take(i as int));
        }
        if fees[i].excess_cents > 0 {
            confirmed.push(
                InvoiceExcessConfirmation {
                    line_id: fees[i].line_id,
                    excess_cents: fees[i].excess_cents,
                },
            );
        }
        i += 1;
    }
    proof {
        assert(fees@.take(fees.len() as int) =~= fees@);
    }
    confirmed
}

/// A request to save the changes of a draft invoice as they were reviewed.
#[derive(Debug)]
pub struct InvoiceDraftSave {
    pub request_id: u128,
    pub edit: InvoiceDraftEdit,
    pub review: InvoiceEditReview,
    pub confirmed_excess: Vec<InvoiceExcessConfirmation>,
}

impl InvoiceDraftSave {
    /// Whether two requests are the same.
    pub open spec fn same(self, other: InvoiceDraftSave) -> bool {
        &&& self.request_id == other.request_id
        &&& self.edit@ == other.edit@
        &&& self.review.same(other.review)
        &&& self.confirmed_excess@ == other.confirmed_excess@
    }

    /// The same request.
    pub fn copy(&self) -> (copy: InvoiceDraftSave)
        ensures
            copy.same(*self),
    {
        let mut confirmed_excess: Vec<InvoiceExcessConfirmation> = Vec::new();
        let mut i: usize = 0;
        while i < self.confirmed_excess.len()
            invariant
                i <= self.confirmed_excess.len(),
                confirmed_excess@ == self.confirmed_excess@.take(i as int),
            decreases self.confirmed_excess.len() - i,
        {
            proof {
                assert(self.confirmed_excess@.take(i + 1) =~= self.confirmed_excess@.take(
                    i as int,
                ).push(self.confirmed_excess@[i as int]));
            }
            confirmed_excess.push(self.confirmed_excess[i]);
            i += 1;
        }
        proof {
            assert(self.confirmed_excess@.take(self.confirmed_excess.len() as int)
                =~= self.confirmed_excess@);
        }
        InvoiceDraftSave {
            request_id: self.request_id,
            edit: self.edit.copy(),
            review: self.review.copy(),
            confirmed_excess,
        }
    }
}

/// The changes that were reviewed, with their review.
#[derive(Debug)]
pub struct ReviewedEdit {
    pub edit: InvoiceDraftEdit,
    pub review: InvoiceEditReview,
}

/// The form in which a draft invoice is edited.
#[derive(Debug)]
pub struct DraftEditForm {
    pub revision: i64,
    pub fields: InvoiceDefaultsInput,
    pub fees: Vec<FeeLineInput>,
    pub reviewed: Option<ReviewedEdit>,
    pub request: Option<InvoiceDraftSave>,
    pub uncertain: bool,
    pub confirm: bool,
    pub busy: bool,
    pub error: Option<String>,
}

/// How a fee is written into its fields.
pub open spec fn is_written(input: FeeLineInput, fee: InvoiceFeeEdit) -> bool {
    &&& input.id == fee.line_id
    &&& input.description@ == fee.description@
    &&& input.amount@ == cents_text(fee.amount_cents as int)
}

impl DraftEditForm {
    /// What the form stands for now.
    pub open spec fn current(self) -> Result<DraftEdit, Seq<char>> {
        read_edit(self.revision, self.fields@, self.fees@)
    }

    /// Whether what was reviewed is exactly what the form stands for.
    pub open spec fn is_ready(self) -> bool {
        &&& self.reviewed is Some
        &&& self.current() == Ok::<DraftEdit, Seq<char>>(self.reviewed->0.edit@)
    }

    /// The form for a draft invoice.
    pub fn new(edit: &InvoiceDraftEdit) -> (form: DraftEditForm)
        ensures
            form.revision == edit.revision,
            form.fields@ == written(edit.defaults@),
            form.fees.len() == edit.fees.len(),
            forall|i: int|
                0 <= i < edit.fees.len() ==> is_written(#[trigger] form.fees@[i], edit.fees@[i]),
            form.reviewed is None,
            form.request is None,
            !form.uncertain,
            !form.confirm,
            !form.busy,
            form.error is None,
    {
        let mut fees: Vec<FeeLineInput> = Vec::new();
        let mut i: usize = 0;
        while i < edit.fees.len()
            invariant
                i <= edit.fees.len(),
                fees.len() == i,
                forall|k: int| 0 <= k < i ==> is_written(#[trigger] fees@[k], edit.fees@[k]),
            decreases edit.fees.len() - i,
        {
            let fee = &edit.fees[i];
            fees.push(
                FeeLineInput {
                    id: fee.line_id,
                    description: fee.description.clone(),
                    amount: format_cents_plain(fee.amount_cents),
                },
            );
            i += 1;
        }
        DraftEditForm {
            revision: edit.revision,
            fields: fields_from(&edit.defaults),
            fees,
            reviewed: None,
            request: None,
            uncertain: false,
            confirm: false,
            busy: false,
            error: None,
        }
    }

    /// Whether what was reviewed is exactly what the form stands for.
    pub fn ready(&self) -> (ready: bool)
        ensures
            ready == self.is_ready(),
    {
        match &self.reviewed {
            None => false,
            Some(reviewed) => match parse_edit(self.revision, &self.fields, &self.fees) {
                Ok(edit) => edit.equals(&reviewed.edit),
                Err(_) => false,
            },
        }
    }

    /// Whether what was reviewed is what the form stands for and exceeds what was agreed.
    pub fn has_excess(&self) -> (excess: bool)
        ensures
            excess == (self.is_ready() && self.reviewed->0.review.exceeds()),
    {
        if !self.ready() {
            return false;
        }
        match &self.reviewed {
            Some(reviewed) => reviewed.review.has_excess(),
            None => false,
        }
    }

    /// Begins a review of what the form stands for, or says why there is none.
    pub fn begin_review(&mut self) -> (edit: Option<InvoiceDraftEdit>)
        ensures
            match old(self).current() {
                Ok(current) => {
                    &&& edit is Some
                    &&& edit->0@ == current
                    &&& *final(self) == (DraftEditForm {
                        busy: true,
                        error: None,
                        reviewed: None,
                        ..*old(self)
                    })
                },
                Err(message) => {
                    &&& edit is None
                    &&& final(self).error is Some
                    &&& final(self).error->0@ == message
                    &&& *final(self) == (DraftEditForm {
                        error: final(self).error,
                        ..*old(self)
                    })
                },
            },
    {
        match parse_edit(self.revision, &self.fields, &self.fees) {
            Ok(edit) => {
                self.busy = true;
                self.error = None;
                self.reviewed = None;
                Some(edit)
            },
            Err(message) => {
                self.error = Some(message);
                None
            },
        }
    }

    /// Takes the reply to a review of `edit`.
    pub fn review_replied(
        &mut self,
        edit: InvoiceDraftEdit,
        reply: Result<InvoiceEditReview, String>,
    )
        ensures
            match reply {
                Ok(review) => *final(self) == (DraftEditForm {
                    reviewed: Some(ReviewedEdit { edit, review }),
                    busy: false,
                    ..*old(self)
                }),
                Err(message) => *final(self) == (DraftEditForm {
                    error: Some(message),
                    busy: false,
                    ..*old(self)
                }),
            },
    {
        match reply {
            Ok(review) => {
                self.reviewed = Some(ReviewedEdit { edit, review });
            },
            Err(message) => {
                self.error = Some(message);
            },
        }
        self.busy = false;
    }

    /// Whether a request can be sent now: one whose outcome is open, or one for what was
    /// reviewed while nothing else is awaited.
    pub open spec fn can_send(self) -> bool {
        if self.uncertain {
            self.request is Some
        } else {
            !self.busy && self.is_ready()
        }
    }

    /// The request to send: the one whose outcome is open exactly as it was, else one for
    /// what was reviewed, with the excess that is confirmed. None is sent while another is
    /// awaited, nor for what was not reviewed.
    pub fn save(&mut self, confirm_excess: bool) -> (request: Option<InvoiceDraftSave>)
        ensures
            request is Some <==> old(self).can_send(),
            request is None ==> *final(self) == *old(self),
            request is Some ==> {
                &&& final(self).request is Some
                &&& request->0.same(final(self).request->0)
                &&& old(self).uncertain ==> final(self).request == old(self).request
                &&& !old(self).uncertain ==> {
                    let sent = final(self).request->0;
                    let reviewed = old(self).reviewed->0;
                    &&& sent.edit@ == reviewed.edit@
                    &&& sent.review.same(reviewed.review)
                    &&& sent.confirmed_excess@ == (if confirm_excess {
                        excesses(reviewed.review.fees@)
                    } else {
                        Seq::empty()
                    })
                }
                &&& *final(self) == (DraftEditForm {
                    request: final(self).request,
                    uncertain: false,
                    confirm: false,
                    busy: true,
                    error: None,
                    ..*old(self)
                })
            },
    {
        if self.busy && !self.uncertain {
            return None;
        }
        let next = if self.uncertain {
            match &self.request {
                Some(request) => request.copy(),
                None => {
                    return None;
                },
            }
        } else {
            if !self.ready() {
                return None;
            }
            match &self.reviewed {
                Some(reviewed) => {
                    let confirmed = if confirm_excess {
                        confirmed_excess(&reviewed.review.fees)
                    } else {
                        Vec::new()
                    };
                    InvoiceDraftSave {
                        request_id: new_id(),
                        edit: reviewed.edit.copy(),
                        review: reviewed.review.copy(),
                        confirmed_excess: confirmed,
                    }
                },
                None => {
                    return None;
                },
            }
        };
        if !self.uncertain {
            self.request = Some(next.copy());
        }
        self.uncertain = false;
        self.confirm = false;
        self.busy = true;
        self.error = None;
        Some(next)
    }

    /// Takes the reply to a request to save: whether the form is done with. What was refused
    /// for certain has to be reviewed again; any other request stays to be sent again.
    pub fn save_replied(&mut self, reply: Result<(), RequestError>, shown: String) -> (done: bool)
        ensures
            done == (reply is Ok),
            match reply {
                Ok(_) => *final(self) == (DraftEditForm { busy: false, ..*old(self) }),
                Err(error) => if error.refused() {
                    *final(self) == (DraftEditForm {
                        busy: false,
                        reviewed: None,
                        error: Some(shown),
                        ..*old(self)
                    })
                } else {
                    &&& final(self).error is Some
                    &&& final(self).error->0@
                        == "The save may have completed. Retry the same changes to recover the result safely."@
                    &&& *final(self) == (DraftEditForm {
                        uncertain: true,
                        error: final(self).error,
                        ..*old(self)
                    })
                },
            },
    {
        match reply {
            Ok(_) => {
                self.busy = false;
                true
            },
            Err(error) => {
                if is_definite_rejection(&error) {
                    self.busy = false;
                    self.reviewed = None;
                    self.error = Some(shown);
                } else {
                    self.uncertain = true;
                    self.error = Some(
                        "The save may have completed. Retry the same changes to recover the result safely.".to_owned(),
                    );
                }
                false
            },
        }
    }

    /// Whether pressing the button that saves asks to confirm an excess first.
    pub fn asks_to_confirm(&self) -> (asks: bool)
        ensures
            asks == (!self.uncertain && self.is_ready() && self.reviewed->0.review.exceeds()),
    {
        !self.uncertain && self.has_excess()
    }

    /// Whether the button that saves can be pressed.
    pub fn save_enabled(&self) -> (enabled: bool)
        ensures
            enabled == ((!self.busy || self.uncertain) && self.is_ready()),
    {
        (!self.busy || self.uncertain) && self.ready()
    }

    /// What the button that saves says.
    pub fn save_label(&self) -> (label: &'static str)
        ensures
            label@ == (if self.uncertain {
                "Retry invoice save"@
            } else {
                "Save invoice values"@
            }),
    {
        if self.uncertain {
            "Retry invoice save"
        } else {
            "Save invoice values"
        }
    }
}

/// A review does not outlive a change: once the form stands for something else than what
/// was reviewed, or for nothing, no new request can be sent.
pub proof fn only_reviewed_changes_are_sent(form: DraftEditForm)
    requires
        !form.uncertain,
        form.can_send(),
    ensures
        form.reviewed is Some,
        form.current() == Ok::<DraftEdit, Seq<char>>(form.reviewed->0.edit@),
{
}

/// A fee is invoiced beyond what was agreed only where its excess, and no other amount, was
/// confirmed: the confirmations are those of the fees that exceed, each by its excess.
pub proof fn confirmations_name_excesses(fees: Seq<FeeReview>, i: int)
    requires
        0 <= i < excesses(fees).len(),
    ensures
        exists|k: int|
            0 <= k < fees.len() && (#[trigger] fees[k]).excess_cents > 0 && excesses(fees)[i] == (
            InvoiceExcessConfirmation {
                line_id: fees[k].line_id,
                excess_cents: fees[k].excess_cents,
            }),
    decreases fees.len(),
{
    if fees.len() > 0 {
        let before = excesses(fees.drop_last());
        if i < before.len() {
            confirmations_name_excesses(fees.drop_last(), i);
            let k = choose|k: int|
                0 <= k < fees.drop_last().len() && (#[trigger] fees.drop_last()[k]).excess_cents > 0
                    && before[i] == (InvoiceExcessConfirmation {
                    line_id: fees.drop_last()[k].line_id,
                    excess_cents: fees.drop_last()[k].excess_cents,
                });
            assert(fees[k] == fees.drop_last()[k]);
        } else {
            assert(fees[fees.len() - 1] == fees.last());
        }
    }
}

/// A draft that was opened stands for itself until something is typed: where its values can
/// be kept and its fees are described and not negative, its form reads back as it is.
pub proof fn opened_drafts_read_back(edit: InvoiceDraftEdit, fields: Fields, fees: Seq<FeeLineInput>)
    requires
        storable(edit.defaults@),
        fields == written(edit.defaults@),
        fees.len() == edit.fees.len(),
        forall|i: int|
            0 <= i < fees.len() ==> is_written(#[trigger] fees[i], edit.fees@[i])
                && is_description(edit.fees@[i].description@) && edit.fees@[i].amount_cents >= 0,
    ensures
        read_edit(edit.revision, fields, fees) == Ok::<DraftEdit, Seq<char>>(edit@),
{
    written_fields_read_back(edit.defaults@);
    written_fees_read_back(edit.fees@, fees);
}

proof fn written_fees_read_back(edits: Seq<InvoiceFeeEdit>, fees: Seq<FeeLineInput>)
    requires
        fees.len() == edits.len(),
        forall|i: int|
            0 <= i < fees.len() ==> is_written(#[trigger] fees[i], edits[i]) && is_description(
                edits[i].description@,
            ) && edits[i].amount_cents >= 0,
    ensures
        read_lines(fees) == Ok::<Seq<FeeValue>, Seq<char>>(fee_values(edits)),
    decreases fees.len(),
{
    if fees.len() == 0 {
        assert(fee_values(edits) =~= Seq::<FeeValue>::empty());
    } else {
        let n = fees.len() - 1;
        assert forall|i: int| 0 <= i < n implies is_written(
            #[trigger] fees.drop_last()[i],
            edits.drop_last()[i],
        ) && is_description(edits.drop_last()[i].description@) && edits.drop_last()[i].amount_cents
            >= 0 by {
            assert(fees.drop_last()[i] == fees[i]);
        }
        written_fees_read_back(edits.drop_last(), fees.drop_last());
        assert(is_written(fees[n], edits[n]));
        cents_read_back(edits[n].amount_cents);
        assert(fee_values(edits) =~= fee_values(edits.drop_last()).push(edits[n]@));
    }
}

/// What is said of the first `n` fees that exceed what was agreed.
pub open spec fn excess_texts(fees: Seq<FeeReview>, currency: Seq<char>, n: int) -> Seq<Seq<char>>
    decreases n,
{
    if n <= 0 {
        Seq::empty()
    } else if fees[n - 1].excess_cents > 0 {
        excess_texts(fees, currency, n - 1).push(
            excess_text(fees[n - 1].period_key@, currency, fees[n - 1].excess_cents as int),
        )
    } else {
        excess_texts(fees, currency, n - 1)
    }
}

/// The lines of the dialog that confirms what a draft invoices beyond what was agreed.
pub fn excess_lines(fees: &Vec<FeeReview>, currency: &str) -> (lines: Vec<String>)
    ensures
        views(lines@) == excess_texts(fees@, trimmed(currency@), fees.len() as int),
{
    let shown = trim(currency);
    let mut lines: Vec<String> = Vec::new();
    let mut i: usize = 0;
    proof {
        assert(views(lines@) =~= Seq::<Seq<char>>::empty());
    }
    while i < fees.len()
        invariant
            i <= fees.len(),
            shown@ == trimmed(currency@),
            views(lines@) == excess_texts(fees@, shown@, i as int),
        decreases fees.len() - i,
    {
        if fees[i].excess_cents > 0 {
            let mut text = fees[i].period_key.clone();
            text.append(" · Excess: ");
            text.append(shown.as_str());
            text.append(" ");
            text.append(format_cents_plain(fees[i].excess_cents).as_str());
            let ghost before = lines@;
            let ghost said = text@;
            lines.push(text);
            proof {
                assert(views(lines@) =~= views(before).push(said));
            }
        }
        i += 1;
    }
    lines
}

/// What was agreed for a fee and invoiced for it elsewhere.
pub fn agreed_line(fee: &FeeReview, currency: &str) -> (line: String)
    ensures
        line@ == "Agreed: "@ + trimmed(currency@) + " "@ + cents_text(fee.agreed_cents as int)
            + " · Other invoiced: "@ + trimmed(currency@) + " "@ + cents_text(
            fee.other_invoiced_cents as int,
        ),
{
    let shown = trim(currency);
    let mut line = "Agreed: ".to_owned();
    line.append(shown.as_str());
    line.append(" ");
    line.append(format_cents_plain(fee.agreed_cents).as_str());
    line.append(" · Other invoiced: ");
    line.append(shown.as_str());
    line.append(" ");
    line.append(format_cents_plain(fee.other_invoiced_cents).as_str());
    line
}

/// What the changes of a fee come to; one that exceeds what was agreed is marked.
pub fn reviewed_line(fee: &FeeReview, currency: &str) -> (line: String)
    ensures
        line@ == fee.period_key@ + " · Net charge: "@ + trimmed(currency@) + " "@ + cents_text(
            fee.net_cents as int,
        ) + " · Remaining: "@ + trimmed(currency@) + " "@ + cents_text(fee.remaining_cents as int)
            + (if fee.excess_cents > 0 {
            " · Over-invoiced"@
        } else {
            Seq::empty()
        }),
{
    let shown = trim(currency);
    let mut line = fee.period_key.clone();
    line.append(" · Net charge: ");
    line.append(shown.as_str());
    line.append(" ");
    line.append(format_cents_plain(fee.net_cents).as_str());
    line.append(" · Remaining: ");
    line.append(shown.as_str());
    line.append(" ");
    line.append(format_cents_plain(fee.remaining_cents).as_str());
    if fee.excess_cents > 0 {
        line.append(" · Over-invoiced");
    } else {
        proof {
            assert(line@ + Seq::<char>::empty() =~= line@);
        }
    }
    line
}

} // verus!

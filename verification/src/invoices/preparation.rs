//! Preparing an invoice: choosing its sources, reviewing it and generating a draft.

use crate::date::Date;
use crate::date::iso_text;
use crate::date::iso_text_of;
use crate::ids::new_id;
use crate::invoices::defaults_form::fields_from;
use crate::invoices::defaults_form::parse_fields;
use crate::invoices::defaults_form::read_fields;
use crate::invoices::defaults_form::storable;
use crate::invoices::defaults_form::written;
use crate::invoices::defaults_form::written_fields_read_back;
use crate::invoices::defaults_form::Defaults;
use crate::invoices::defaults_form::InvoiceDefaults;
use crate::invoices::defaults_form::InvoiceDefaultsInput;
use crate::invoices::fees::fee_lines;
use crate::invoices::fees::from_review;
use crate::invoices::fees::is_description;
use crate::invoices::fees::parse;
use crate::invoices::fees::read_fee;
use crate::invoices::fees::FeeInput;
use crate::invoices::fees::InvoiceFeeSelection;
use crate::invoices::fees::InvoiceSource;
use crate::invoices::fees::PreparedLine;
use crate::invoices::fees::Source;
use crate::lists::contains_text;
use crate::lists::other_text;
use crate::lists::remove_text;
use crate::lists::views;
use crate::money::cents_read_back;
use crate::money::cents_text;
use crate::money::format_cents_plain;
use crate::new_project::fields::is_definite_rejection;
use crate::new_project::fields::RequestError;
use crate::new_project::form::copy_texts;
use crate::new_project::form::equal_texts;
use crate::order::sort_texts;
use crate::order::sorted_texts;
use crate::text::same;
use vstd::prelude::*;

verus! {

/// What a fee to invoice is.
pub struct Selection {
    pub source: Source,
    pub description: Seq<char>,
    pub amount_cents: i64,
    pub selected: bool,
}

impl View for InvoiceFeeSelection {
    type V = Selection;

    open spec fn view(&self) -> Selection {
        Selection {
            source: self.source@,
            description: self.description@,
            amount_cents: self.amount_cents,
            selected: self.selected,
        }
    }
}

impl InvoiceFeeSelection {
    fn equals(&self, other: &InvoiceFeeSelection) -> (equal: bool)
        ensures
            equal == (self@ == other@),
    {
        self.source.equals(&other.source) && same(
            self.description.as_str(),
            other.description.as_str(),
        ) && self.amount_cents == other.amount_cents && self.selected == other.selected
    }

    fn copy(&self) -> (copy: InvoiceFeeSelection)
        ensures
            copy@ == self@,
    {
        InvoiceFeeSelection {
            source: self.source.clone(),
            description: self.description.clone(),
            amount_cents: self.amount_cents,
            selected: self.selected,
        }
    }
}

/// What fees to invoice are.
pub open spec fn selections(fees: Seq<InvoiceFeeSelection>) -> Seq<Selection> {
    Seq::new(fees.len(), |i: int| fees[i]@)
}

fn same_selections(a: &Vec<InvoiceFeeSelection>, b: &Vec<InvoiceFeeSelection>) -> (equal: bool)
    ensures
        equal == (selections(a@) == selections(b@)),
{
    if a.len() != b.len() {
        proof {
            assert(selections(a@).len() != selections(b@).len());
        }
        return false;
    }
    let mut i: usize = 0;
    while i < a.len()
        invariant
            i <= a.len(),
            a.len() == b.len(),
            forall|k: int| 0 <= k < i ==> (#[trigger] a@[k])@ == b@[k]@,
        decreases a.len() - i,
    {
        if !a[i].equals(&b[i]) {
            proof {
                assert(selections(a@)[i as int] != selections(b@)[i as int]);
            }
            return false;
        }
        i += 1;
    }
    proof {
        assert(selections(a@) =~= selections(b@));
    }
    true
}

fn copy_selections(fees: &Vec<InvoiceFeeSelection>) -> (copy: Vec<InvoiceFeeSelection>)
    ensures
        selections(copy@) == selections(fees@),
{
    let mut copy: Vec<InvoiceFeeSelection> = Vec::new();
    let mut i: usize = 0;
    while i < fees.len()
        invariant
            i <= fees.len(),
            copy.len() == i,
            forall|k: int| 0 <= k < i ==> (#[trigger] copy@[k])@ == fees@[k]@,
        decreases fees.len() - i,
    {
        copy.push(fees[i].copy());
        i += 1;
    }
    proof {
        assert(selections(copy@) =~= selections(fees@));
    }
    copy
}

/// What an invoice is asked for: its sources, its values and its fees.
#[derive(Debug)]
pub struct InvoiceRequest {
    pub client: String,
    pub from: String,
    pub to: String,
    pub projects: Option<Vec<String>>,
    pub overrides: Option<InvoiceDefaults>,
    pub fees: Option<Vec<InvoiceFeeSelection>>,
}

/// What the sources of an invoice are.
pub struct Sources {
    pub client: Seq<char>,
    pub from: Seq<char>,
    pub to: Seq<char>,
    pub projects: Option<Seq<Seq<char>>>,
}

/// What is asked for.
pub struct Request {
    pub sources: Sources,
    pub overrides: Option<Defaults>,
    pub fees: Option<Seq<Selection>>,
}

/// What chosen projects are.
pub open spec fn project_views(projects: Option<Vec<String>>) -> Option<Seq<Seq<char>>> {
    match projects {
        Some(projects) => Some(views(projects@)),
        None => None,
    }
}

impl View for InvoiceRequest {
    type V = Request;

    open spec fn view(&self) -> Request {
        Request {
            sources: self.sources(),
            overrides: match self.overrides {
                Some(overrides) => Some(overrides@),
                None => None,
            },
            fees: match self.fees {
                Some(fees) => Some(selections(fees@)),
                None => None,
            },
        }
    }
}

fn same_projects(a: &Option<Vec<String>>, b: &Option<Vec<String>>) -> (equal: bool)
    ensures
        equal == (project_views(*a) == project_views(*b)),
{
    match (a, b) {
        (Some(a), Some(b)) => equal_texts(a, b),
        (None, None) => true,
        _ => false,
    }
}

fn copy_projects(projects: &Option<Vec<String>>) -> (copy: Option<Vec<String>>)
    ensures
        project_views(copy) == project_views(*projects),
{
    match projects {
        Some(projects) => Some(copy_texts(projects)),
        None => None,
    }
}

impl InvoiceRequest {
    /// What the sources of the invoice are.
    pub open spec fn sources(self) -> Sources {
        Sources {
            client: self.client@,
            from: self.from@,
            to: self.to@,
            projects: project_views(self.projects),
        }
    }

    /// Whether two requests have the same sources.
    pub fn same_sources(&self, other: &InvoiceRequest) -> (equal: bool)
        ensures
            equal == (self.sources() == other.sources()),
    {
        same(self.client.as_str(), other.client.as_str()) && same(
            self.from.as_str(),
            other.from.as_str(),
        ) && same(self.to.as_str(), other.to.as_str()) && same_projects(
            &self.projects,
            &other.projects,
        )
    }

    /// Whether two requests ask for the same.
    pub fn equals(&self, other: &InvoiceRequest) -> (equal: bool)
        ensures
            equal == (self@ == other@),
    {
        let overrides = match (&self.overrides, &other.overrides) {
            (Some(a), Some(b)) => a.equals(b),
            (None, None) => true,
            _ => false,
        };
        let fees = match (&self.fees, &other.fees) {
            (Some(a), Some(b)) => same_selections(a, b),
            (None, None) => true,
            _ => false,
        };
        self.same_sources(other) && overrides && fees
    }

    /// A request that asks for the same.
    pub fn copy(&self) -> (copy: InvoiceRequest)
        ensures
            copy@ == self@,
    {
        InvoiceRequest {
            client: self.client.clone(),
            from: self.from.clone(),
            to: self.to.clone(),
            projects: copy_projects(&self.projects),
            overrides: match &self.overrides {
                Some(overrides) => Some(overrides.clone()),
                None => None,
            },
            fees: match &self.fees {
                Some(fees) => Some(copy_selections(fees)),
                None => None,
            },
        }
    }
}

/// Whether what is asked for now is what was reviewed. Values that are not valid are no
/// request, and stand for no earlier one.
pub fn is_reviewed(current: Option<&InvoiceRequest>, reviewed: Option<&InvoiceRequest>) -> (same:
    bool)
    ensures
        same == (current is Some && reviewed is Some && current->0@ == reviewed->0@),
{
    match (current, reviewed) {
        (Some(current), Some(reviewed)) => current.equals(reviewed),
        _ => false,
    }
}

/// By how much a fee would be invoiced beyond what was agreed.
#[derive(Debug)]
pub struct InvoiceExcess {
    pub source: InvoiceSource,
    pub excess_cents: i64,
}

impl Clone for InvoiceExcess {
    fn clone(&self) -> (copy: Self)
        ensures
            copy == *self,
    {
        InvoiceExcess { source: self.source.clone(), excess_cents: self.excess_cents }
    }
}

/// The values that a project has for its invoices.
#[derive(Debug)]
pub struct ProjectDefaults {
    pub project_id: u128,
    pub name: String,
    pub defaults: InvoiceDefaults,
}

impl Clone for ProjectDefaults {
    fn clone(&self) -> (copy: Self)
        ensures
            copy == *self,
    {
        ProjectDefaults {
            project_id: self.project_id,
            name: self.name.clone(),
            defaults: self.defaults.clone(),
        }
    }
}

/// An invoice as it was reviewed. Where its projects disagree on its values, it has none.
#[derive(Debug)]
pub struct InvoicePreparation {
    pub issued_on: Date,
    pub due_on: Option<Date>,
    pub currency: String,
    pub defaults: Option<InvoiceDefaults>,
    pub projects: Vec<ProjectDefaults>,
    pub lines: Vec<PreparedLine>,
    pub excess: Vec<InvoiceExcess>,
}

/// What a fee of a reviewed invoice is to be invoiced as.
pub open spec fn line_selection(line: PreparedLine) -> Selection {
    Selection {
        source: line.source@,
        description: line.description@,
        amount_cents: line.amount_cents,
        selected: line.selected,
    }
}

/// What the fees of a reviewed invoice are to be invoiced as.
pub open spec fn line_selections(lines: Seq<PreparedLine>) -> Seq<Selection> {
    let fees = fee_lines(lines, lines.len() as int);
    Seq::new(fees.len(), |i: int| line_selection(fees[i]))
}

impl InvoicePreparation {
    /// Whether two reviews are the same.
    pub open spec fn same(self, other: InvoicePreparation) -> bool {
        &&& self.issued_on == other.issued_on
        &&& self.due_on == other.due_on
        &&& self.currency@ == other.currency@
        &&& self.defaults == other.defaults
        &&& self.projects@ == other.projects@
        &&& self.lines@ == other.lines@
        &&& self.excess@ == other.excess@
    }

    /// The same review.
    pub fn copy(&self) -> (copy: InvoicePreparation)
        ensures
            copy.same(*self),
    {
        let mut projects: Vec<ProjectDefaults> = Vec::new();
        let mut i: usize = 0;
        while i < self.projects.len()
            invariant
                i <= self.projects.len(),
                projects.len() == i,
                forall|k: int| 0 <= k < i ==> #[trigger] projects@[k] == self.projects@[k],
            decreases self.projects.len() - i,
        {
            projects.push(self.projects[i].clone());
            i += 1;
        }
        let mut lines: Vec<PreparedLine> = Vec::new();
        let mut j: usize = 0;
        while j < self.lines.len()
            invariant
                j <= self.lines.len(),
                lines.len() == j,
                forall|k: int| 0 <= k < j ==> #[trigger] lines@[k] == self.lines@[k],
            decreases self.lines.len() - j,
        {
            lines.push(self.lines[j].clone());
            j += 1;
        }
        let excess = copy_excess(&self.excess);
        proof {
            assert(projects@ =~= self.projects@);
            assert(lines@ =~= self.lines@);
        }
        InvoicePreparation {
            issued_on: self.issued_on,
            due_on: self.due_on,
            currency: self.currency.clone(),
            defaults: match &self.defaults {
                Some(defaults) => Some(defaults.clone()),
                None => None,
            },
            projects,
            lines,
            excess,
        }
    }

    /// What the fees of the review are to be invoiced as.
    pub fn fee_selection(&self) -> (fees: Vec<InvoiceFeeSelection>)
        ensures
            selections(fees@) == line_selections(self.lines@),
    {
        let mut fees: Vec<InvoiceFeeSelection> = Vec::new();
        let mut i: usize = 0;
        while i < self.lines.len()
            invariant
                i <= self.lines.len(),
                fees.len() == fee_lines(self.lines@, i as int).len(),
                forall|k: int|
                    0 <= k < fees.len() ==> (#[trigger] fees@[k])@ == line_selection(
                        fee_lines(self.lines@, i as int)[k],
                    ),
            decreases self.lines.len() - i,
        {
            let line = &self.lines[i];
            if line.fee_balance.is_some() {
                fees.push(
                    InvoiceFeeSelection {
                        source: line.source.clone(),
                        description: line.description.clone(),
                        amount_cents: line.amount_cents,
                        selected: line.selected,
                    },
                );
            }
            i += 1;
        }
        proof {
            assert(selections(fees@) =~= line_selections(self.lines@));
        }
        fees
    }

    /// Whether something is to be invoiced.
    pub open spec fn selects(self) -> bool {
        exists|i: int| 0 <= i < self.lines.len() && (#[trigger] self.lines@[i]).selected
    }

    /// Whether something is to be invoiced.
    pub fn has_selection(&self) -> (selected: bool)
        ensures
            selected == self.selects(),
            forall|i: int|
                0 <= i < self.lines.len() && (#[trigger] self.lines@[i]).selected ==> selected,
            (forall|i: int| 0 <= i < self.lines.len() ==> !(#[trigger] self.lines@[i]).selected)
                ==> !selected,
    {
        let mut i: usize = 0;
        while i < self.lines.len()
            invariant
                i <= self.lines.len(),
                forall|k: int| 0 <= k < i ==> !(#[trigger] self.lines@[k]).selected,
            decreases self.lines.len() - i,
        {
            if self.lines[i].selected {
                return true;
            }
            i += 1;
        }
        false
    }
}

fn copy_excess(excess: &Vec<InvoiceExcess>) -> (copy: Vec<InvoiceExcess>)
    ensures
        copy@ == excess@,
{
    let mut copy: Vec<InvoiceExcess> = Vec::new();
    let mut i: usize = 0;
    while i < excess.len()
        invariant
            i <= excess.len(),
            copy.len() == i,
            forall|k: int| 0 <= k < i ==> #[trigger] copy@[k] == excess@[k],
        decreases excess.len() - i,
    {
        copy.push(excess[i].clone());
        i += 1;
    }
    proof {
        assert(copy@ =~= excess@);
    }
    copy
}

/// A request to generate an invoice as it was reviewed.
#[derive(Debug)]
pub struct InvoiceGenerationRequest {
    pub request_id: u128,
    pub review: InvoicePreparation,
    pub confirmed_excess: Vec<InvoiceExcess>,
}

impl InvoiceGenerationRequest {
    /// Whether two requests are the same.
    pub open spec fn same(self, other: InvoiceGenerationRequest) -> bool {
        &&& self.request_id == other.request_id
        &&& self.review.same(other.review)
        &&& self.confirmed_excess@ == other.confirmed_excess@
    }

    /// The same request.
    pub fn copy(&self) -> (copy: InvoiceGenerationRequest)
        ensures
            copy.same(*self),
    {
        InvoiceGenerationRequest {
            request_id: self.request_id,
            review: self.review.copy(),
            confirmed_excess: copy_excess(&self.confirmed_excess),
        }
    }
}

/// An invoice that is generated: what was asked for and the request for it.
#[derive(Debug)]
pub struct Generation {
    pub asked: InvoiceRequest,
    pub request: InvoiceGenerationRequest,
}

impl Generation {
    /// Whether two generations are the same.
    pub open spec fn same(self, other: Generation) -> bool {
        self.asked@ == other.asked@ && self.request.same(other.request)
    }

    fn copy(&self) -> (copy: Generation)
        ensures
            copy.same(*self),
    {
        Generation { asked: self.asked.copy(), request: self.request.copy() }
    }
}

/// The fees that are typed, as they are to be invoiced, or why the first that is not taken
/// is not.
pub open spec fn read_selections(fees: Seq<FeeInput>) -> Result<Seq<Selection>, Seq<char>>
    decreases fees.len(),
{
    if fees.len() == 0 {
        Ok(Seq::empty())
    } else {
        match read_selections(fees.drop_last()) {
            Err(message) => Err(message),
            Ok(before) => match read_fee(fees.last()) {
                Err(message) => Err(message),
                Ok(amount_cents) => Ok(
                    before.push(
                        Selection {
                            source: fees.last().source@,
                            description: fees.last().description@,
                            amount_cents,
                            selected: fees.last().selected,
                        },
                    ),
                ),
            },
        }
    }
}

proof fn all_read(fees: Seq<FeeInput>, read: Seq<InvoiceFeeSelection>)
    requires
        read.len() == fees.len(),
        forall|i: int| 0 <= i < fees.len() ==> (#[trigger] read[i]).is_of(fees[i]),
    ensures
        read_selections(fees) == Ok::<Seq<Selection>, Seq<char>>(selections(read)),
    decreases fees.len(),
{
    if fees.len() == 0 {
        assert(selections(read) =~= Seq::<Selection>::empty());
    } else {
        let before = read.drop_last();
        assert forall|i: int| 0 <= i < before.len() implies (#[trigger] before[i]).is_of(
            fees.drop_last()[i],
        ) by {
            assert(before[i] == read[i]);
        }
        all_read(fees.drop_last(), before);
        assert(read[fees.len() - 1].is_of(fees[fees.len() - 1]));
        assert(selections(read) =~= selections(before).push(read.last()@));
    }
}

proof fn first_unread(fees: Seq<FeeInput>, i: int)
    requires
        0 <= i < fees.len(),
        read_fee(fees[i]) is Err,
        forall|k: int| 0 <= k < i ==> read_fee(#[trigger] fees[k]) is Ok,
    ensures
        read_selections(fees) == Err::<Seq<Selection>, Seq<char>>(read_fee(fees[i])->Err_0),
    decreases fees.len(),
{
    if i < fees.len() - 1 {
        assert forall|k: int| 0 <= k < i implies read_fee(#[trigger] fees.drop_last()[k]) is Ok by {
            assert(fees.drop_last()[k] == fees[k]);
        }
        assert(fees.drop_last()[i] == fees[i]);
        first_unread(fees.drop_last(), i);
    } else {
        all_before_read(fees.drop_last());
    }
}

proof fn all_before_read(fees: Seq<FeeInput>)
    requires
        forall|k: int| 0 <= k < fees.len() ==> read_fee(#[trigger] fees[k]) is Ok,
    ensures
        read_selections(fees) is Ok,
    decreases fees.len(),
{
    if fees.len() > 0 {
        assert forall|k: int| 0 <= k < fees.len() - 1 implies read_fee(
            #[trigger] fees.drop_last()[k],
        ) is Ok by {
            assert(fees.drop_last()[k] == fees[k]);
        }
        all_before_read(fees.drop_last());
        assert(read_fee(fees[fees.len() - 1]) is Ok);
    }
}

/// The form in which an invoice is prepared.
#[derive(Debug)]
pub struct Preparation {
    pub client: String,
    pub from: String,
    pub to: String,
    pub selected: Option<Vec<String>>,
    pub fields: InvoiceDefaultsInput,
    pub started: bool,
    pub preview: Option<InvoicePreparation>,
    pub reviewed: Option<InvoiceRequest>,
    pub generation: Option<Generation>,
    pub uncertain: bool,
    pub error: Option<String>,
    pub fees: Vec<FeeInput>,
    pub loaded: Option<InvoiceRequest>,
    pub confirm: bool,
    pub busy: bool,
}

impl Preparation {
    /// The sources that are chosen.
    pub open spec fn chosen(self) -> Sources {
        Sources {
            client: self.client@,
            from: self.from@,
            to: self.to@,
            projects: project_views(self.selected),
        }
    }

    /// Whether the fees that are shown are those of the chosen sources.
    pub open spec fn fees_belong(self) -> bool {
        self.loaded is Some && self.loaded->0.sources() == self.chosen()
    }

    /// What is asked for now, or why it is not valid. Values are part of it once there are
    /// some, fees where they are those of the chosen sources.
    pub open spec fn asked(self) -> Result<Request, Seq<char>> {
        let values = read_fields(self.fields@);
        let fees = read_selections(self.fees@);
        if self.started && values is Err {
            Err(values->Err_0)
        } else if self.fees_belong() && fees is Err {
            Err(fees->Err_0)
        } else {
            Ok(
                Request {
                    sources: self.chosen(),
                    overrides: if self.started {
                        Some(values->Ok_0)
                    } else {
                        None
                    },
                    fees: if self.fees_belong() {
                        Some(fees->Ok_0)
                    } else {
                        None
                    },
                },
            )
        }
    }

    /// Whether what is asked for is exactly what was reviewed.
    pub open spec fn is_ready(self) -> bool {
        self.reviewed is Some && self.asked() == Ok::<Request, Seq<char>>(self.reviewed->0@)
    }

    /// A form in which nothing is chosen yet.
    pub fn new() -> (form: Preparation)
        ensures
            form.client@.len() == 0,
            form.from@.len() == 0,
            form.to@.len() == 0,
            form.selected is None,
            form.fields.terms_days@ == "30"@,
            form.fields.po_number@.len() == 0,
            form.fields.tax@.len() == 0,
            form.fields.discount@.len() == 0,
            form.fields.second_tax is None,
            !form.started,
            form.preview is None,
            form.reviewed is None,
            form.generation is None,
            !form.uncertain,
            form.error is None,
            form.fees@.len() == 0,
            form.loaded is None,
            !form.confirm,
            !form.busy,
    {
        Preparation {
            client: String::new(),
            from: String::new(),
            to: String::new(),
            selected: None,
            fields: InvoiceDefaultsInput::default(),
            started: false,
            preview: None,
            reviewed: None,
            generation: None,
            uncertain: false,
            error: None,
            fees: Vec::new(),
            loaded: None,
            confirm: false,
            busy: false,
        }
    }

    /// What is asked for now, or why it is not valid.
    pub fn current(&self) -> (request: Result<InvoiceRequest, String>)
        ensures
            match request {
                Ok(request) => self.asked() == Ok::<Request, Seq<char>>(request@),
                Err(message) => self.asked() == Err::<Request, Seq<char>>(message@),
            },
    {
        let request = InvoiceRequest {
            client: self.client.clone(),
            from: self.from.clone(),
            to: self.to.clone(),
            projects: copy_projects(&self.selected),
            overrides: None,
            fees: None,
        };
        let belong = match &self.loaded {
            Some(loaded) => loaded.same_sources(&request),
            None => false,
        };
        let overrides = if self.started {
            match parse_fields(&self.fields) {
                Ok(defaults) => Some(defaults),
                Err(message) => {
                    return Err(message);
                },
            }
        } else {
            None
        };
        let fees = if belong {
            match parse(self.fees.as_slice()) {
                Ok(fees) => {
                    proof {
                        all_read(self.fees@, fees@);
                    }
                    Some(fees)
                },
                Err(message) => {
                    proof {
                        let i = choose|i: int|
                            0 <= i < self.fees@.len() && read_fee(#[trigger] self.fees@[i])
                                == Err::<i64, Seq<char>>(message@) && forall|k: int|
                                0 <= k < i ==> read_fee(#[trigger] self.fees@[k]) is Ok;
                        first_unread(self.fees@, i);
                    }
                    return Err(message);
                },
            }
        } else {
            None
        };
        Ok(
            InvoiceRequest {
                client: request.client,
                from: request.from,
                to: request.to,
                projects: request.projects,
                overrides,
                fees,
            },
        )
    }

    /// Whether what is asked for is exactly what was reviewed.
    pub fn ready(&self) -> (ready: bool)
        ensures
            ready == self.is_ready(),
    {
        match self.current() {
            Ok(request) => is_reviewed(Some(&request), self.reviewed.as_ref()),
            Err(_) => false,
        }
    }

    /// Chooses another client: everything that came from the one before is dropped.
    pub fn choose_client(&mut self, client: String)
        ensures
            final(self).client == client,
            final(self).from == old(self).from,
            final(self).to == old(self).to,
            final(self).selected is None,
            final(self).fields.terms_days@ == "30"@,
            final(self).fields.po_number@.len() == 0,
            final(self).fields.tax@.len() == 0,
            final(self).fields.discount@.len() == 0,
            final(self).fields.second_tax is None,
            !final(self).started,
            final(self).preview is None,
            final(self).reviewed is None,
            final(self).generation == old(self).generation,
            final(self).uncertain == old(self).uncertain,
            final(self).error is None,
            final(self).fees@.len() == 0,
            final(self).loaded is None,
            !final(self).confirm,
            final(self).busy == old(self).busy,
    {
        self.client = client;
        self.selected = None;
        self.fields = InvoiceDefaultsInput::default();
        self.started = false;
        self.preview = None;
        self.fees = Vec::new();
        self.loaded = None;
        self.confirm = false;
        self.reviewed = None;
        self.error = None;
    }

    /// Chooses all projects of the client, or none of them yet.
    pub fn toggle_all_projects(&mut self)
        ensures
            project_views(final(self).selected) == (if old(self).selected is None {
                Some(Seq::<Seq<char>>::empty())
            } else {
                None
            }),
            *final(self) == (Preparation { selected: final(self).selected, ..*old(self) }),
    {
        self.selected = if self.selected.is_none() {
            let none: Vec<String> = Vec::new();
            proof {
                assert(views(none@) =~= Seq::<Seq<char>>::empty());
            }
            Some(none)
        } else {
            None
        };
    }

    /// Chooses a project or leaves it out; the chosen ones are kept in order. Where all are
    /// chosen nothing changes.
    pub fn toggle_project(&mut self, id: &str)
        ensures
            project_views(final(self).selected) == (match project_views(old(self).selected) {
                None => None,
                Some(ids) => Some(toggled_project(ids, id@)),
            }),
            *final(self) == (Preparation { selected: final(self).selected, ..*old(self) }),
    {
        match self.selected.take() {
            None => {},
            Some(ids) => {
                let mut ids = ids;
                if contains_text(&ids, id) {
                    remove_text(&mut ids, id);
                    self.selected = Some(ids);
                } else {
                    let ghost before = ids@;
                    ids.push(id.to_owned());
                    proof {
                        assert(views(ids@) =~= views(before).push(id@));
                    }
                    self.selected = Some(sort_texts(&ids));
                }
            },
        }
    }

    /// Takes the values of a project as those of the invoice.
    pub fn use_defaults(&mut self, defaults: &InvoiceDefaults)
        ensures
            final(self).fields@ == written(defaults@),
            *final(self) == (Preparation { fields: final(self).fields, ..*old(self) }),
    {
        self.fields = fields_from(defaults);
    }

    /// Begins a review of what is asked for, or says why there is none. None begins while
    /// another request is awaited.
    pub fn begin_review(&mut self) -> (request: Option<InvoiceRequest>)
        ensures
            old(self).busy ==> request is None && *final(self) == *old(self),
            !old(self).busy ==> match old(self).asked() {
                Ok(asked) => {
                    &&& request is Some
                    &&& request->0@ == asked
                    &&& *final(self) == (Preparation {
                        error: None,
                        reviewed: None,
                        generation: None,
                        confirm: false,
                        busy: true,
                        ..*old(self)
                    })
                },
                Err(message) => {
                    &&& request is None
                    &&& final(self).error is Some
                    &&& final(self).error->0@ == message
                    &&& *final(self) == (Preparation { error: final(self).error, ..*old(self) })
                },
            },
    {
        if self.busy {
            return None;
        }
        match self.current() {
            Ok(request) => {
                self.error = None;
                self.reviewed = None;
                self.generation = None;
                self.confirm = false;
                self.busy = true;
                Some(request)
            },
            Err(message) => {
                self.error = Some(message);
                None
            },
        }
    }

    /// Takes the review of what was asked for. Where the projects agree on the values of the
    /// invoice, what was asked for with these values and the reviewed fees counts as
    /// reviewed; otherwise the values have to be chosen.
    pub fn review_arrived(&mut self, request: InvoiceRequest, review: InvoicePreparation)
        ensures
            final(self).loaded is Some,
            final(self).loaded->0@ == request@,
            ({
                let fees = fee_lines(review.lines@, review.lines.len() as int);
                &&& final(self).fees.len() == fees.len()
                &&& forall|i: int|
                    0 <= i < fees.len() ==> (#[trigger] final(self).fees@[i]).is_from(fees[i])
            }),
            match review.defaults {
                Some(defaults) => {
                    &&& final(self).fields@ == written(defaults@)
                    &&& final(self).reviewed is Some
                    &&& final(self).reviewed->0@ == (Request {
                        sources: request.sources(),
                        overrides: Some(defaults@),
                        fees: Some(line_selections(review.lines@)),
                    })
                },
                None => {
                    &&& final(self).reviewed == old(self).reviewed
                    &&& final(self).fields.terms_days@.len() == 0
                    &&& final(self).fields.po_number@.len() == 0
                    &&& final(self).fields.tax@.len() == 0
                    &&& final(self).fields.discount@.len() == 0
                    &&& final(self).fields.second_tax is None
                },
            },
            *final(self) == (Preparation {
                fees: final(self).fees,
                loaded: final(self).loaded,
                fields: final(self).fields,
                reviewed: final(self).reviewed,
                started: true,
                preview: Some(review),
                busy: false,
                ..*old(self)
            }),
    {
        self.fees = from_review(&review.lines);
        self.loaded = Some(request.copy());
        match &review.defaults {
            Some(defaults) => {
                self.fields = fields_from(defaults);
                self.reviewed = Some(
                    InvoiceRequest {
                        client: request.client,
                        from: request.from,
                        to: request.to,
                        projects: request.projects,
                        overrides: Some(defaults.clone()),
                        fees: Some(review.fee_selection()),
                    },
                );
            },
            None => {
                let mut fields = InvoiceDefaultsInput::default();
                fields.terms_days = String::new();
                self.fields = fields;
            },
        }
        self.started = true;
        self.preview = Some(review);
        self.busy = false;
    }

    /// Takes that a review failed.
    pub fn review_failed(&mut self, message: String)
        ensures
            *final(self) == (Preparation { error: Some(message), busy: false, ..*old(self) }),
    {
        self.error = Some(message);
        self.busy = false;
    }

    /// Whether something was reviewed that can be invoiced.
    pub open spec fn selects(self) -> bool {
        self.preview is Some && self.preview->0.selects()
    }

    /// Whether a draft can be asked for now: one for what was reviewed while nothing is
    /// awaited, or the one whose outcome is open.
    pub open spec fn can_generate(self) -> bool {
        &&& !self.busy || self.uncertain
        &&& self.is_ready()
        &&& self.selects()
        &&& self.uncertain ==> self.generation is Some && self.asked() == Ok::<Request, Seq<char>>(
            self.generation->0.asked@,
        )
    }

    /// The request for a draft: the one whose outcome is open exactly as it was, else one for
    /// what was reviewed, with the excess that is confirmed.
    pub fn generate(&mut self, confirm_excess: bool) -> (sent: Option<Generation>)
        ensures
            sent is Some <==> old(self).can_generate(),
            forall|i: int|
                !old(self).busy && !old(self).uncertain && old(self).is_ready() && old(
                    self,
                ).preview is Some && 0 <= i < old(self).preview->0.lines.len() && (
                #[trigger] old(self).preview->0.lines@[i]).selected ==> sent is Some,
            sent is None ==> *final(self) == *old(self),
            sent is Some ==> {
                &&& final(self).generation is Some
                &&& sent->0.same(final(self).generation->0)
                &&& Ok::<Request, Seq<char>>(sent->0.asked@) == old(self).asked()
                &&& old(self).uncertain ==> final(self).generation == old(self).generation
                &&& !old(self).uncertain ==> {
                    let review = old(self).preview->0;
                    &&& sent->0.request.review.same(review)
                    &&& sent->0.request.confirmed_excess@ == (if confirm_excess {
                        review.excess@
                    } else {
                        Seq::empty()
                    })
                }
                &&& *final(self) == (Preparation {
                    generation: final(self).generation,
                    uncertain: false,
                    confirm: false,
                    busy: true,
                    error: None,
                    ..*old(self)
                })
            },
    {
        if self.busy && !self.uncertain {
            return None;
        }
        let asked = match self.current() {
            Ok(asked) => asked,
            Err(_) => {
                return None;
            },
        };
        if !is_reviewed(Some(&asked), self.reviewed.as_ref()) {
            return None;
        }
        let generation = match &self.preview {
            None => {
                return None;
            },
            Some(review) => {
                if !review.has_selection() {
                    return None;
                }
                if self.uncertain {
                    match &self.generation {
                        None => {
                            return None;
                        },
                        Some(generation) => {
                            if !generation.asked.equals(&asked) {
                                return None;
                            }
                            generation.copy()
                        },
                    }
                } else {
                    let confirmed_excess = if confirm_excess {
                        copy_excess(&review.excess)
                    } else {
                        Vec::new()
                    };
                    Generation {
                        asked,
                        request: InvoiceGenerationRequest {
                            request_id: new_id(),
                            review: review.copy(),
                            confirmed_excess,
                        },
                    }
                }
            },
        };
        if !self.uncertain {
            self.generation = Some(generation.copy());
        }
        self.uncertain = false;
        self.confirm = false;
        self.busy = true;
        self.error = None;
        Some(generation)
    }

    /// Takes what became of a draft that was asked for: the invoice, if there is one. What
    /// was refused for certain has to be reviewed again; any other request stays to be sent
    /// again, and nothing else can be done meanwhile.
    pub fn generated(&mut self, reply: Result<u128, RequestError>, shown: String) -> (created:
        Option<u128>)
        ensures
            match reply {
                Ok(id) => created == Some(id) && *final(self) == (Preparation {
                    busy: false,
                    ..*old(self)
                }),
                Err(error) => {
                    &&& created is None
                    &&& error.refused() ==> *final(self) == (Preparation {
                        busy: false,
                        error: Some(shown),
                        reviewed: None,
                        ..*old(self)
                    })
                    &&& !error.refused() ==> {
                        &&& final(self).error is Some
                        &&& final(self).error->0@
                            == "The invoice may have been saved. Retry the same request to recover it without creating another draft."@
                        &&& *final(self) == (Preparation {
                            error: final(self).error,
                            uncertain: true,
                            busy: true,
                            ..*old(self)
                        })
                    }
                },
            },
    {
        self.busy = false;
        match reply {
            Ok(id) => Some(id),
            Err(error) => {
                if is_definite_rejection(&error) {
                    self.error = Some(shown);
                    self.reviewed = None;
                } else {
                    self.error = Some(
                        "The invoice may have been saved. Retry the same request to recover it without creating another draft.".to_owned(),
                    );
                    self.uncertain = true;
                    self.busy = true;
                }
                None
            },
        }
    }

    /// Whether pressing the button that generates asks to confirm an excess first.
    pub fn asks_to_confirm(&self) -> (asks: bool)
        ensures
            asks == (!self.uncertain && self.is_ready() && self.preview is Some
                && self.preview->0.excess.len() > 0),
    {
        if self.uncertain || !self.ready() {
            return false;
        }
        match &self.preview {
            Some(review) => review.excess.len() > 0,
            None => false,
        }
    }

    /// Whether the button that generates can be pressed.
    pub fn generate_enabled(&self) -> (enabled: bool)
        ensures
            enabled == ((!self.busy || self.uncertain) && self.is_ready() && self.selects()),
    {
        if (self.busy && !self.uncertain) || !self.ready() {
            return false;
        }
        match &self.preview {
            Some(review) => review.has_selection(),
            None => false,
        }
    }

    /// What the button that generates says.
    pub fn generate_label(&self) -> (label: &'static str)
        ensures
            label@ == (if self.uncertain {
                "Retry generation"@
            } else {
                "Generate draft"@
            }),
    {
        if self.uncertain {
            "Retry generation"
        } else {
            "Generate draft"
        }
    }
}

/// The chosen projects after one of them was chosen or left out.
pub open spec fn toggled_project(ids: Seq<Seq<char>>, id: Seq<char>) -> Seq<Seq<char>> {
    if ids.contains(id) {
        ids.filter(other_text(id))
    } else {
        sorted_texts(ids.push(id))
    }
}

/// Whether a reviewed fee can be invoiced as it was reviewed.
pub open spec fn can_invoice(line: PreparedLine) -> bool {
    &&& line.fee_balance is Some
    &&& is_description(line.description@)
    &&& line.amount_cents >= 0
    &&& line.selected && line.amount_cents == 0 ==> line.fee_balance->0.agreed_cents == 0
}

/// A review that has just arrived can be invoiced as it is: where nothing else was chosen
/// since it was asked for, where it has values and where its fees can be invoiced, what the
/// form asks for is what was reviewed.
pub proof fn fresh_reviews_are_ready(form: Preparation, review: InvoicePreparation)
    requires
        form.started,
        form.fees_belong(),
        review.defaults is Some,
        storable(review.defaults->0@),
        form.fields@ == written(review.defaults->0@),
        form.fees.len() == fee_lines(review.lines@, review.lines.len() as int).len(),
        forall|i: int|
            0 <= i < form.fees.len() ==> (#[trigger] form.fees@[i]).is_from(
                fee_lines(review.lines@, review.lines.len() as int)[i],
            ) && can_invoice(fee_lines(review.lines@, review.lines.len() as int)[i]),
        form.reviewed is Some,
        form.reviewed->0@ == (Request {
            sources: form.chosen(),
            overrides: Some(review.defaults->0@),
            fees: Some(line_selections(review.lines@)),
        }),
    ensures
        form.is_ready(),
{
    let fees = fee_lines(review.lines@, review.lines.len() as int);
    written_fields_read_back(review.defaults->0@);
    reviewed_fees_read_back(form.fees@, fees);
    assert(line_selections(review.lines@) =~= Seq::new(
        fees.len(),
        |i: int| line_selection(fees[i]),
    ));
}

proof fn reviewed_fees_read_back(inputs: Seq<FeeInput>, lines: Seq<PreparedLine>)
    requires
        inputs.len() == lines.len(),
        forall|i: int|
            0 <= i < inputs.len() ==> (#[trigger] inputs[i]).is_from(lines[i]) && can_invoice(
                lines[i],
            ),
    ensures
        read_selections(inputs) == Ok::<Seq<Selection>, Seq<char>>(
            Seq::new(lines.len(), |i: int| line_selection(lines[i])),
        ),
    decreases inputs.len(),
{
    let all = Seq::new(lines.len(), |i: int| line_selection(lines[i]));
    if inputs.len() == 0 {
        assert(all =~= Seq::<Selection>::empty());
    } else {
        let n = inputs.len() - 1;
        assert forall|i: int| 0 <= i < n implies (#[trigger] inputs.drop_last()[i]).is_from(
            lines.drop_last()[i],
        ) && can_invoice(lines.drop_last()[i]) by {
            assert(inputs.drop_last()[i] == inputs[i]);
        }
        reviewed_fees_read_back(inputs.drop_last(), lines.drop_last());
        assert(inputs[n].is_from(lines[n]));
        cents_read_back(lines[n].amount_cents);
        assert(all =~= Seq::new(
            lines.drop_last().len(),
            |i: int| line_selection(lines.drop_last()[i]),
        ).push(line_selection(lines[n])));
    }
}

/// Only what was reviewed is invoiced: a draft that can be asked for anew is the one whose
/// exact sources, values and fees were reviewed.
pub proof fn only_reviewed_invoices_are_generated(form: Preparation)
    requires
        form.can_generate(),
    ensures
        form.reviewed is Some,
        form.asked() == Ok::<Request, Seq<char>>(form.reviewed->0@),
        form.selects(),
{
}

/// The place, from `i` on, of the first charge from a source.
pub open spec fn first_charge(lines: Seq<PreparedLine>, source: Source, i: int) -> int
    decreases lines.len() - i,
{
    if 0 <= i < lines.len() && lines[i].source@ != source {
        first_charge(lines, source, i + 1)
    } else {
        i
    }
}

/// What is said of an excess: the charge that exceeds, and by how much.
pub open spec fn excess_text(description: Seq<char>, currency: Seq<char>, cents: int) -> Seq<char> {
    description + " · Excess: "@ + currency + " "@ + cents_text(cents)
}

/// What is said of the first `n` excesses of a review; one without a charge is left out.
pub open spec fn excess_texts(review: InvoicePreparation, n: int) -> Seq<Seq<char>>
    decreases n,
{
    if n <= 0 {
        Seq::empty()
    } else {
        let excess = review.excess@[n - 1];
        let at = first_charge(review.lines@, excess.source@, 0);
        if at < review.lines.len() {
            excess_texts(review, n - 1).push(
                excess_text(
                    review.lines@[at].description@,
                    review.currency@,
                    excess.excess_cents as int,
                ),
            )
        } else {
            excess_texts(review, n - 1)
        }
    }
}

fn find_charge(lines: &Vec<PreparedLine>, source: &InvoiceSource) -> (at: usize)
    ensures
        at == first_charge(lines@, source@, 0),
        at <= lines.len(),
{
    let mut i: usize = 0;
    while i < lines.len() && !lines[i].source.equals(source)
        invariant
            i <= lines.len(),
            first_charge(lines@, source@, i as int) == first_charge(lines@, source@, 0),
        decreases lines.len() - i,
    {
        i += 1;
    }
    i
}

/// The lines of the dialog that confirms what a review invoices beyond what was agreed.
pub fn excess_lines(review: &InvoicePreparation) -> (lines: Vec<String>)
    ensures
        views(lines@) == excess_texts(*review, review.excess.len() as int),
{
    let mut lines: Vec<String> = Vec::new();
    let mut i: usize = 0;
    proof {
        assert(views(lines@) =~= Seq::<Seq<char>>::empty());
    }
    while i < review.excess.len()
        invariant
            i <= review.excess.len(),
            views(lines@) == excess_texts(*review, i as int),
        decreases review.excess.len() - i,
    {
        let excess = &review.excess[i];
        let at: usize = find_charge(&review.lines, &excess.source);
        if at < review.lines.len() {
            let mut text = review.lines[at].description.clone();
            text.append(" · Excess: ");
            text.append(review.currency.as_str());
            text.append(" ");
            text.append(format_cents_plain(excess.excess_cents).as_str());
            let ghost before = lines@;
            let ghost said = text@;
            lines.push(text);
            proof {
                assert(views(lines@) =~= views(before).push(said));
            }
        }
        i += 1;
    }
    lines
}

/// The dates of a reviewed invoice, as they are shown above its charges.
pub fn dates_line(review: &InvoicePreparation) -> (line: String)
    requires
        review.issued_on.valid(),
        review.due_on is Some ==> review.due_on->0.valid(),
    ensures
        line@ == "Invoice date: "@ + iso_text(review.issued_on.days) + " · Due: "@ + (
        match review.due_on {
            Some(day) => iso_text(day.days),
            None => Seq::empty(),
        }),
{
    let mut line = "Invoice date: ".to_owned();
    line.append(iso_text_of(review.issued_on.days).as_str());
    line.append(" · Due: ");
    match review.due_on {
        Some(day) => line.append(iso_text_of(day.days).as_str()),
        None => {
            proof {
                assert(line@ + Seq::<char>::empty() =~= line@);
            }
        },
    }
    line
}

} // verus!

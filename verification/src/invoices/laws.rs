//! What preparing and editing invoices promises: what is asked for, what is read and what is
//! sent.

use crate::invoices::defaults_form::edited_tax;
use crate::invoices::defaults_form::read_fields;
use crate::invoices::defaults_form::read_percentage;
use crate::invoices::defaults_form::read_second_tax;
use crate::invoices::defaults_form::read_terms;
use crate::invoices::defaults_form::written;
use crate::invoices::defaults_form::Defaults;
use crate::invoices::defaults_form::Fields;
use crate::invoices::defaults_form::InvoiceDefaults;
use crate::invoices::defaults_form::InvoiceDefaultsInput;
use crate::invoices::defaults_form::SecondTaxInput;
use crate::invoices::defaults_form::TaxEdit;
use crate::invoices::editing::InvoiceFeeEdit;
use crate::invoices::editing::excesses;
use crate::invoices::editing::fee_values;
use crate::invoices::editing::is_written;
use crate::invoices::editing::read_edit;
use crate::invoices::editing::read_line;
use crate::invoices::editing::read_lines;
use crate::invoices::editing::DraftEdit;
use crate::invoices::editing::DraftEditForm;
use crate::invoices::editing::FeeLineInput;
use crate::invoices::editing::FeeReview;
use crate::invoices::editing::FeeValue;
use crate::invoices::editing::InvoiceDraftEdit;
use crate::invoices::editing::InvoiceDraftSave;
use crate::invoices::editing::InvoiceEditReview;
use crate::invoices::editing::InvoiceExcessConfirmation;
use crate::invoices::fees::fee_key;
use crate::invoices::fees::fee_lines;
use crate::invoices::fees::has_key;
use crate::invoices::fees::is_latest;
use crate::invoices::fees::is_refreshed;
use crate::invoices::fees::new_fees;
use crate::invoices::fees::new_places;
use crate::invoices::fees::place_ranks;
use crate::invoices::fees::read_fee;
use crate::invoices::fees::FeeInput;
use crate::invoices::fees::FeeKey;
use crate::invoices::fees::InvoiceFeeSelection;
use crate::invoices::fees::InvoiceSource;
use crate::invoices::fees::PreparedLine;
use crate::invoices::list::next;
use crate::invoices::list::status_text;
use crate::invoices::list::InvoiceStatus;
use crate::invoices::preparation::excess_text;
use crate::invoices::preparation::excess_texts;
use crate::invoices::preparation::first_charge;
use crate::invoices::preparation::line_selections;
use crate::invoices::preparation::project_views;
use crate::invoices::preparation::read_selections;
use crate::invoices::preparation::selections;
use crate::invoices::preparation::toggled_project;
use crate::invoices::preparation::Generation;
use crate::invoices::preparation::InvoicePreparation;
use crate::invoices::preparation::InvoiceRequest;
use crate::invoices::preparation::Preparation;
use crate::invoices::preparation::Request;
use crate::invoices::preparation::Selection;
use crate::lists::filter_holds;
use crate::lists::opt_view;
use crate::lists::other_text;
use crate::lists::views;
use crate::money::cents_text;
use crate::money::parsed_cents;
use crate::money::Percentage;
use crate::order::comes_first;
use crate::order::sorted_order;
use crate::order::sorted_order_exists;
use crate::order::sorted_texts;
use crate::order::text_precedes;
use crate::order::SortKey;
use crate::order::TextKey;
use crate::text::is_number;
use crate::text::number;
use crate::text::trimmed;
use vstd::prelude::*;

verus! {

// ---- What is to be invoiced ----

/// Something is to be invoiced where a line is selected, whether it charges time or a fee, and
/// nothing where none is.
pub proof fn any_selected_line_is_invoiced(review: InvoicePreparation, i: int)
    ensures
        0 <= i < review.lines.len() && review.lines@[i].selected ==> review.selects(),
        0 <= i < review.lines.len() && review.lines@[i].selected
            && review.lines@[i].fee_balance is None ==> review.selects(),
        (forall|k: int| 0 <= k < review.lines.len() ==> !(#[trigger] review.lines@[k]).selected)
            ==> !review.selects(),
{
}

/// A form that is not busy, whose request was reviewed and whose review has a selected line, can
/// be invoiced, be the line one of time or a fee. Nothing else can, but for the request whose
/// outcome is open.
pub proof fn reviewed_lines_can_be_invoiced(form: Preparation, i: int)
    ensures
        !form.busy && !form.uncertain && form.is_ready() && form.preview is Some && 0 <= i
            < form.preview->0.lines.len() && form.preview->0.lines@[i].selected
            ==> form.can_generate(),
        form.preview is None ==> !form.can_generate(),
        form.preview is Some && (forall|k: int|
            0 <= k < form.preview->0.lines.len() ==> !(
            #[trigger] form.preview->0.lines@[k]).selected) ==> !form.can_generate(),
        form.busy && !form.uncertain ==> !form.can_generate(),
        form.reviewed is None ==> !form.can_generate(),
        form.uncertain && form.generation is None ==> !form.can_generate(),
        form.can_generate() ==> form.asked() == Ok::<Request, Seq<char>>(form.reviewed->0@),
        form.can_generate() && form.uncertain ==> form.asked() == Ok::<Request, Seq<char>>(
            form.generation->0.asked@,
        ),
{
}

/// A form is ready exactly where what it asks for is what was reviewed.
pub proof fn ready_forms_were_reviewed(form: Preparation)
    ensures
        form.is_ready() <==> form.reviewed is Some && form.asked() is Ok && form.asked()->Ok_0
            == form.reviewed->0@,
{
}

/// A form asks for the chosen client, dates and projects; for its values once there are some;
/// and for its fees where they are those of what is chosen.
pub proof fn forms_ask_for_what_is_chosen(form: Preparation)
    requires
        form.asked() is Ok,
    ensures
        form.asked()->Ok_0.sources.client == form.client@,
        form.asked()->Ok_0.sources.from == form.from@,
        form.asked()->Ok_0.sources.to == form.to@,
        form.asked()->Ok_0.sources.projects == project_views(form.selected),
        form.asked()->Ok_0.overrides is Some <==> form.started,
        form.started ==> read_fields(form.fields@) == Ok::<Defaults, Seq<char>>(
            form.asked()->Ok_0.overrides->0,
        ),
        form.asked()->Ok_0.fees is Some <==> form.fees_belong(),
        form.fees_belong() ==> read_selections(form.fees@) == Ok::<Seq<Selection>, Seq<char>>(
            form.asked()->Ok_0.fees->0,
        ),
{
}

/// A form asks for something unless values that it has, or fees that belong to it, are not
/// valid; then it says what is wrong with them, the values first.
pub proof fn forms_say_what_is_wrong(form: Preparation)
    ensures
        form.asked() is Err <==> (form.started && read_fields(form.fields@) is Err) || (
        form.fees_belong() && read_selections(form.fees@) is Err),
        form.started && read_fields(form.fields@) is Err ==> form.asked()->Err_0 == read_fields(
            form.fields@,
        )->Err_0,
        !(form.started && read_fields(form.fields@) is Err) && form.fees_belong()
            && read_selections(form.fees@) is Err ==> form.asked()->Err_0 == read_selections(
            form.fees@,
        )->Err_0,
{
}

/// The fees on show belong to what is chosen exactly where they were loaded for the same client,
/// dates and projects.
pub proof fn fees_belong_to_their_sources(form: Preparation)
    ensures
        form.fees_belong() <==> form.loaded is Some && form.loaded->0.client@ == form.client@
            && form.loaded->0.from@ == form.from@ && form.loaded->0.to@ == form.to@
            && project_views(form.loaded->0.projects) == project_views(form.selected),
{
}

/// Chosen projects are the same where all are chosen, or the same ones in the same order.
pub proof fn chosen_projects_agree(a: Option<Vec<String>>, b: Option<Vec<String>>)
    ensures
        project_views(a) == project_views(b) <==> (a is None <==> b is None) && (a is Some ==> (
        a->0.len() == b->0.len() && forall|i: int|
            0 <= i < a->0.len() ==> (#[trigger] a->0@[i])@ == b->0@[i]@)),
{
    if a is Some && b is Some {
        let (x, y) = (a->0@, b->0@);
        if views(x) == views(y) {
            assert(views(x).len() == x.len() && views(y).len() == y.len());
            assert forall|i: int| 0 <= i < x.len() implies (#[trigger] x[i])@ == y[i]@ by {
                assert(views(x)[i] == views(y)[i]);
            }
        }
        if x.len() == y.len() && forall|i: int| 0 <= i < x.len() ==> (#[trigger] x[i])@ == y[i]@ {
            assert(views(x) =~= views(y));
        }
    }
}

/// Two requests ask for the same exactly where they have the same sources, the same values and
/// the same fees, each of them alike.
pub proof fn same_requests_agree(a: InvoiceRequest, b: InvoiceRequest)
    ensures
        a@ == b@ ==> a.client@ == b.client@ && a.from@ == b.from@ && a.to@ == b.to@
            && project_views(a.projects) == project_views(b.projects),
        a@ == b@ ==> (a.overrides is Some <==> b.overrides is Some),
        a@ == b@ && a.overrides is Some ==> a.overrides->0@ == b.overrides->0@,
        a@ == b@ ==> (a.fees is Some <==> b.fees is Some),
        a@ == b@ && a.fees is Some ==> a.fees->0.len() == b.fees->0.len(),
        a@ == b@ && a.fees is Some ==> forall|i: int|
            0 <= i < a.fees->0.len() ==> {
                &&& (#[trigger] a.fees->0@[i]).source@ == b.fees->0@[i].source@
                &&& a.fees->0@[i].description@ == b.fees->0@[i].description@
                &&& a.fees->0@[i].amount_cents == b.fees->0@[i].amount_cents
                &&& a.fees->0@[i].selected == b.fees->0@[i].selected
            },
        a.sources() == b.sources() <==> a.client@ == b.client@ && a.from@ == b.from@ && a.to@
            == b.to@ && project_views(a.projects) == project_views(b.projects),
{
    if a@ == b@ {
        assert(a@.sources == b@.sources);
        assert(a@.overrides == b@.overrides);
        assert(a@.fees == b@.fees);
        if a.fees is Some {
            let (x, y) = (selections(a.fees->0@), selections(b.fees->0@));
            assert(x == y);
            assert(x.len() == a.fees->0.len() && y.len() == b.fees->0.len());
            assert forall|i: int| 0 <= i < a.fees->0.len() implies {
                &&& (#[trigger] a.fees->0@[i]).source@ == b.fees->0@[i].source@
                &&& a.fees->0@[i].description@ == b.fees->0@[i].description@
                &&& a.fees->0@[i].amount_cents == b.fees->0@[i].amount_cents
                &&& a.fees->0@[i].selected == b.fees->0@[i].selected
            } by {
                assert(x[i] == y[i]);
            }
        }
    }
}

/// An invoice's values are the same exactly where each of them is.
pub proof fn same_defaults_agree(a: InvoiceDefaults, b: InvoiceDefaults)
    ensures
        a@ == b@ <==> a.terms_days == b.terms_days && a.po_number@ == b.po_number@ && a.tax1_bps
            == b.tax1_bps && a.discount_bps == b.discount_bps && opt_view(a.tax2_name) == opt_view(
            b.tax2_name,
        ) && a.tax2_bps == b.tax2_bps,
{
    assert(a@.terms_days == a.terms_days && b@.terms_days == b.terms_days);
    assert(a@.tax1_bps == a.tax1_bps && b@.tax1_bps == b.tax1_bps);
    assert(a@.discount_bps == a.discount_bps && b@.discount_bps == b.discount_bps);
    assert(a@.po_number == a.po_number@ && b@.po_number == b.po_number@);
    assert(a@.tax2_name == opt_view(a.tax2_name) && b@.tax2_name == opt_view(b.tax2_name));
    assert(a@.tax2_bps == a.tax2_bps && b@.tax2_bps == b.tax2_bps);
}

/// What was typed is the same exactly where each field is.
pub proof fn same_fields_agree(a: InvoiceDefaultsInput, b: InvoiceDefaultsInput)
    ensures
        a@ == b@ <==> a.terms_days@ == b.terms_days@ && a.po_number@ == b.po_number@ && a.tax@
            == b.tax@ && a.discount@ == b.discount@ && (a.second_tax is Some <==> b.second_tax
            is Some) && (a.second_tax is Some ==> a.second_tax->0.name@ == b.second_tax->0.name@
            && a.second_tax->0.percentage@ == b.second_tax->0.percentage@),
{
    assert(a@.terms_days == a.terms_days@ && b@.terms_days == b.terms_days@);
    assert(a@.tax == a.tax@ && b@.tax == b.tax@);
    assert(a@.second_tax == b@.second_tax <==> ((a.second_tax is Some <==> b.second_tax is Some)
        && (a.second_tax is Some ==> a.second_tax->0.name@ == b.second_tax->0.name@
        && a.second_tax->0.percentage@ == b.second_tax->0.percentage@)));
}

/// Reviews are the same exactly where they have the same dates, currency, values, projects,
/// lines and excess.
pub proof fn same_reviews_agree(a: InvoicePreparation, b: InvoicePreparation)
    ensures
        a.same(b) <==> a.issued_on == b.issued_on && a.due_on == b.due_on && a.currency@
            == b.currency@ && a.defaults == b.defaults && a.projects@ == b.projects@ && a.lines@
            == b.lines@ && a.excess@ == b.excess@,
        a.same(b) ==> (a.selects() <==> b.selects()),
{
}

/// Requests for a draft are the same exactly where they have the same identity, the same review
/// and confirm the same excess.
pub proof fn same_generations_agree(a: Generation, b: Generation)
    ensures
        a.request.same(b.request) <==> a.request.request_id == b.request.request_id
            && a.request.review.same(b.request.review) && a.request.confirmed_excess@
            == b.request.confirmed_excess@,
        a.same(b) <==> a.asked@ == b.asked@ && a.request.same(b.request),
{
}

/// Requests to save a draft are the same exactly where they have the same identity, the same
/// changes, the same review and confirm the same excess.
pub proof fn same_draft_saves_agree(a: InvoiceDraftSave, b: InvoiceDraftSave)
    ensures
        a.same(b) <==> a.request_id == b.request_id && a.edit@ == b.edit@ && a.review.total_cents
            == b.review.total_cents && a.review.fees@ == b.review.fees@ && a.confirmed_excess@
            == b.confirmed_excess@,
{
}

/// Changes of a draft are the same only where they are of the same revision, with the same
/// values and the same fees.
pub proof fn same_draft_edits_agree(a: InvoiceDraftEdit, b: InvoiceDraftEdit)
    requires
        a@ == b@,
    ensures
        a.revision == b.revision,
        a.defaults@ == b.defaults@,
        a.fees.len() == b.fees.len(),
        forall|i: int|
            0 <= i < a.fees.len() ==> (#[trigger] a.fees@[i]).line_id == b.fees@[i].line_id
                && a.fees@[i].description@ == b.fees@[i].description@ && a.fees@[i].amount_cents
                == b.fees@[i].amount_cents,
{
    assert(a@.fees == b@.fees);
    let (x, y) = (fee_values(a.fees@), fee_values(b.fees@));
    assert(x.len() == a.fees.len() && y.len() == b.fees.len());
    assert forall|i: int| 0 <= i < a.fees.len() implies (#[trigger] a.fees@[i]).line_id
        == b.fees@[i].line_id && a.fees@[i].description@ == b.fees@[i].description@
        && a.fees@[i].amount_cents == b.fees@[i].amount_cents by {
        assert(x[i] == y[i]);
    }
}

// ---- Values ----

/// Values are written as they are: days as a number, percentages with their hundredths, and a
/// second tax where it has both a name and a percentage.
pub proof fn values_are_written_as_they_are(defaults: Defaults)
    ensures
        written(defaults).terms_days == crate::text::signed_decimal(defaults.terms_days),
        written(defaults).po_number == defaults.po_number,
        written(defaults).tax == cents_text(defaults.tax1_bps),
        written(defaults).discount == cents_text(defaults.discount_bps),
        written(defaults).second_tax is Some <==> defaults.tax2_name is Some && defaults.tax2_bps
            is Some,
        written(defaults).second_tax is Some ==> written(defaults).second_tax->0 == (
            defaults.tax2_name->0,
            cents_text(defaults.tax2_bps->0 as int),
        ),
{
}

/// Terms of payment are from 0 to 365 days; any such number is read as itself.
pub proof fn terms_are_days_of_a_year(s: Seq<char>)
    ensures
        read_terms(s) is Some ==> 0 <= read_terms(s)->0 <= 365,
        is_number(trimmed(s)) && number(trimmed(s)) <= 365 ==> read_terms(s) == Some(
            number(trimmed(s)) as int,
        ),
        is_number(trimmed(s)) && number(trimmed(s)) > 365 ==> read_terms(s) is None,
        trimmed(s).len() == 0 ==> read_terms(s) is None,
{
    let t = trimmed(s);
    if is_number(t) {
        assert(crate::text::is_digit(t[0]));
    }
}

/// A percentage that is read is from 0 to 100 percent; a blank field is none.
pub proof fn percentages_are_of_a_hundred(s: Seq<char>)
    ensures
        trimmed(s).len() == 0 ==> read_percentage(s) == Some(0i16),
        trimmed(s).len() > 0 && Percentage::named(s) is None ==> read_percentage(s) is None,
        trimmed(s).len() > 0 && Percentage::named(s) is Some ==> read_percentage(s) is Some,
        Percentage::named(s) is Some ==> Percentage::named(s)->0 <= 10000,
        read_percentage(s) is Some ==> 0 <= read_percentage(s)->0 <= 10000,
        trimmed(s).len() > 0 && read_percentage(s) is Some ==> read_percentage(s)->0
            == Percentage::named(s)->0,
{
}

/// A second tax needs a name that is not blank and of at most a hundred characters, and a
/// percentage; its name is taken without the white space around it.
pub proof fn second_taxes_are_named(name: Seq<char>, percentage: Seq<char>)
    ensures
        read_second_tax(None) == Ok::<(Option<Seq<char>>, Option<i16>), Seq<char>>((None, None)),
        read_second_tax(Some((name, percentage))) is Ok <==> trimmed(name).len() > 0 && name.len()
            <= 100 && !name.contains('\0') && read_percentage(percentage) is Some,
        read_second_tax(Some((name, percentage))) is Ok ==> read_second_tax(
            Some((name, percentage)),
        )->Ok_0 == (Some(trimmed(name)), read_percentage(percentage)),
{
}

/// Fields are taken exactly where each of them is valid, and then stand for what they say.
pub proof fn fields_stand_for_what_they_say(fields: Fields)
    ensures
        read_fields(fields) is Ok <==> read_terms(fields.terms_days) is Some
            && fields.po_number.len() <= 200 && !fields.po_number.contains('\0')
            && read_second_tax(fields.second_tax) is Ok && read_percentage(fields.discount) is Some
            && read_percentage(fields.tax) is Some,
        read_fields(fields) is Ok ==> {
            let read = read_fields(fields)->Ok_0;
            &&& Some(read.terms_days) == read_terms(fields.terms_days)
            &&& read.po_number == trimmed(fields.po_number)
            &&& read.tax1_bps == read_percentage(fields.tax)->0
            &&& read.discount_bps == read_percentage(fields.discount)->0
            &&& (read.tax2_name, read.tax2_bps) == read_second_tax(fields.second_tax)->Ok_0
        },
{
}

/// A change of a second tax is to its name or to its percentage.
pub proof fn taxes_are_edited_one_field_at_a_time(tax: SecondTaxInput, edit: TaxEdit)
    ensures
        edit is Name ==> edited_tax(tax, edit).name == edit->Name_value && edited_tax(
            tax,
            edit,
        ).percentage == tax.percentage,
        edit is Percentage ==> edited_tax(tax, edit).percentage == edit->Percentage_value
            && edited_tax(tax, edit).name == tax.name,
{
}

// ---- Fees of a draft ----

/// A fee is read exactly where it is described in at most a thousand characters and its amount
/// is exact and not negative; then as it was typed.
pub proof fn fees_are_read_as_typed(fee: FeeLineInput)
    ensures
        read_line(fee) is Ok <==> trimmed(fee.description@).len() > 0 && fee.description@.len()
            <= 1000 && !fee.description@.contains('\0') && parsed_cents(fee.amount@) is Some
            && parsed_cents(fee.amount@)->0 >= 0,
        read_line(fee) is Ok ==> read_line(fee)->Ok_0.line_id == fee.id
            && read_line(fee)->Ok_0.description == fee.description@
            && read_line(fee)->Ok_0.amount_cents == parsed_cents(fee.amount@)->0,
{
}

/// Fees are read exactly where each of them is, one value for each in their order; else the
/// first that is not read says why.
pub proof fn all_fees_are_read(fees: Seq<FeeLineInput>, i: int)
    ensures
        read_lines(fees) is Ok <==> forall|k: int|
            0 <= k < fees.len() ==> read_line(#[trigger] fees[k]) is Ok,
        read_lines(fees) is Ok ==> read_lines(fees)->Ok_0.len() == fees.len(),
        read_lines(fees) is Ok && 0 <= i < fees.len() ==> read_lines(fees)->Ok_0[i] == read_line(
            fees[i],
        )->Ok_0,
        0 <= i < fees.len() && read_line(fees[i]) is Err && (forall|k: int|
            0 <= k < i ==> read_line(#[trigger] fees[k]) is Ok) ==> read_lines(fees) == Err::<
            Seq<FeeValue>,
            Seq<char>,
        >(read_line(fees[i])->Err_0),
    decreases fees.len(),
{
    if fees.len() > 0 {
        let before = fees.drop_last();
        all_fees_are_read(before, i);
        assert forall|k: int| 0 <= k < before.len() implies #[trigger] before[k] == fees[k] by {}
        if read_lines(fees) is Ok {
            assert forall|k: int| 0 <= k < fees.len() implies read_line(#[trigger] fees[k]) is Ok by {
                if k < before.len() {
                    assert(read_line(before[k]) is Ok);
                }
            }
        }
        if forall|k: int| 0 <= k < fees.len() ==> read_line(#[trigger] fees[k]) is Ok {
            assert forall|k: int| 0 <= k < before.len() implies read_line(#[trigger] before[k])
                is Ok by {
                assert(read_line(fees[k]) is Ok);
            }
            assert(read_line(fees[fees.len() - 1]) is Ok);
        }
        if 0 <= i < fees.len() && read_line(fees[i]) is Err && (forall|k: int|
            0 <= k < i ==> read_line(#[trigger] fees[k]) is Ok) {
            if i < before.len() {
                assert(read_line(before[i]) is Err);
                assert forall|k: int| 0 <= k < i implies read_line(#[trigger] before[k]) is Ok by {
                    assert(read_line(fees[k]) is Ok);
                }
            } else {
                assert forall|k: int| 0 <= k < before.len() implies read_line(#[trigger] before[k])
                    is Ok by {
                    assert(read_line(fees[k]) is Ok);
                }
            }
        }
    }
}

/// A form of a draft stands for its revision, its values and its fees, where all are valid; and
/// says what is wrong with its values first.
pub proof fn draft_forms_stand_for_all_they_hold(
    revision: i64,
    fields: Fields,
    fees: Seq<FeeLineInput>,
)
    ensures
        read_edit(revision, fields, fees) is Ok <==> read_fields(fields) is Ok && read_lines(fees)
            is Ok,
        read_edit(revision, fields, fees) is Ok ==> {
            let read = read_edit(revision, fields, fees)->Ok_0;
            &&& read.revision == revision
            &&& read.defaults == read_fields(fields)->Ok_0
            &&& read.fees == read_lines(fees)->Ok_0
        },
        read_fields(fields) is Err ==> read_edit(revision, fields, fees) == Err::<
            DraftEdit,
            Seq<char>,
        >(read_fields(fields)->Err_0),
        read_fields(fields) is Ok && read_lines(fees) is Err ==> read_edit(revision, fields, fees)
            == Err::<DraftEdit, Seq<char>>(read_lines(fees)->Err_0),
{
}

/// A fee exceeds what was agreed exactly where its excess is more than nothing, and each such
/// fee is confirmed by its exact excess.
pub proof fn every_excess_is_confirmed(fees: Seq<FeeReview>, k: int)
    ensures
        0 <= k < fees.len() && fees[k].excess_cents > 0 ==> excesses(fees).contains(
            InvoiceExcessConfirmation {
                line_id: fees[k].line_id,
                excess_cents: fees[k].excess_cents,
            },
        ),
        excesses(fees).len() > 0 <==> exists|i: int|
            0 <= i < fees.len() && (#[trigger] fees[i]).excess_cents > 0,
        excesses(fees).len() <= fees.len(),
    decreases fees.len(),
{
    if fees.len() > 0 {
        let before = fees.drop_last();
        let last = fees.last();
        every_excess_is_confirmed(before, k);
        let confirmed = InvoiceExcessConfirmation {
            line_id: last.line_id,
            excess_cents: last.excess_cents,
        };
        if last.excess_cents > 0 {
            assert(excesses(fees)[excesses(before).len() as int] == confirmed);
            assert(fees[fees.len() - 1].excess_cents > 0);
        }
        if 0 <= k < before.len() && before[k].excess_cents > 0 {
            let wanted = InvoiceExcessConfirmation {
                line_id: fees[k].line_id,
                excess_cents: fees[k].excess_cents,
            };
            let i = choose|i: int| 0 <= i < excesses(before).len() && excesses(before)[i] == wanted;
            assert(excesses(fees)[i] == wanted);
        }
        if exists|i: int| 0 <= i < before.len() && (#[trigger] before[i]).excess_cents > 0 {
            let i = choose|i: int| 0 <= i < before.len() && (#[trigger] before[i]).excess_cents > 0;
            assert(fees[i].excess_cents > 0);
        }
        if exists|i: int| 0 <= i < fees.len() && (#[trigger] fees[i]).excess_cents > 0 {
            let i = choose|i: int| 0 <= i < fees.len() && (#[trigger] fees[i]).excess_cents > 0;
            if i < before.len() {
                assert(before[i].excess_cents > 0);
            }
        }
    }
}

/// A review exceeds what was agreed exactly where one of its fees does.
pub proof fn one_excess_is_enough(review: InvoiceEditReview, i: int)
    ensures
        0 <= i < review.fees.len() && review.fees@[i].excess_cents > 0 ==> review.exceeds(),
        (forall|k: int| 0 <= k < review.fees.len() ==> (#[trigger] review.fees@[k]).excess_cents <= 0)
            ==> !review.exceeds(),
{
}

/// Changes can be sent where they were reviewed exactly as they are and nothing is awaited, or
/// where the outcome of their request is open.
pub proof fn reviewed_changes_can_be_sent(form: DraftEditForm)
    ensures
        form.is_ready() <==> form.reviewed is Some && read_edit(
            form.revision,
            form.fields@,
            form.fees@,
        ) == Ok::<DraftEdit, Seq<char>>(form.reviewed->0.edit@),
        !form.uncertain && !form.busy && form.is_ready() ==> form.can_send(),
        !form.uncertain && form.busy ==> !form.can_send(),
        !form.uncertain && !form.is_ready() ==> !form.can_send(),
        form.uncertain ==> (form.can_send() <==> form.request is Some),
{
}

// ---- Fees of a preparation ----

/// The fees of a review are its lines with a balance, in their order.
pub proof fn fees_are_lines_with_a_balance(lines: Seq<PreparedLine>, n: int)
    requires
        0 <= n <= lines.len(),
    ensures
        fee_lines(lines, n) == lines.take(n).filter(|line: PreparedLine| line.fee_balance is Some),
    decreases n,
{
    let keep = |line: PreparedLine| line.fee_balance is Some;
    crate::lists::filter_all(lines, keep);
    if n > 0 {
        fees_are_lines_with_a_balance(lines, n - 1);
        crate::lists::filter_step(lines, n - 1, keep);
    }
}

/// The fees of a review are invoiced as their lines say.
pub proof fn lines_are_invoiced_as_reviewed(lines: Seq<PreparedLine>, i: int)
    ensures
        line_selections(lines).len() == fee_lines(lines, lines.len() as int).len(),
        0 <= i < line_selections(lines).len() ==> {
            let line = fee_lines(lines, lines.len() as int)[i];
            &&& line_selections(lines)[i].source == line.source@
            &&& line_selections(lines)[i].description == line.description@
            &&& line_selections(lines)[i].amount_cents == line.amount_cents
            &&& line_selections(lines)[i].selected == line.selected
        },
{
}

/// A reviewed fee is edited from what was reviewed.
pub proof fn fees_are_edited_from_the_review(fee: FeeInput, line: PreparedLine)
    requires
        fee.is_from(line),
    ensures
        fee.present,
        fee.source == line.source,
        fee.description@ == line.description@,
        fee.label@ == line.description@,
        fee.amount@ == cents_text(line.amount_cents as int),
        fee.selected == line.selected,
        fee.currency@ == line.currency@,
        line.fee_balance == Some(fee.balance),
{
}

/// Sources are the same exactly where they are of the same time, or of the same project and
/// period; time is never a fee.
pub proof fn sources_are_told(a: InvoiceSource, b: InvoiceSource)
    ensures
        a is Time && b is Fee ==> a@ != b@,
        a is Time && b is Time ==> (a@ == b@ <==> a->key@ == b->key@),
        a is Fee && b is Fee ==> (a@ == b@ <==> a->project_id == b->project_id && a->period_key@
            == b->period_key@),
        a@.place() == b@.place() <==> a@ == b@,
{
}

/// A fee is found again by its source and its currency.
pub proof fn fees_are_found_again(a: FeeInput, b: FeeInput)
    ensures
        fee_key(a) == fee_key(b) <==> a.source@ == b.source@ && a.currency@ == b.currency@,
{
    sources_are_told(a.source, b.source);
}

/// A fee that is still there is shown as it is now; what was edited of it is kept. The last one
/// under its key counts, and only the first of the edited ones takes it.
pub proof fn fees_that_stay_are_current(
    previous: Seq<FeeInput>,
    current: Seq<FeeInput>,
    refreshed: Seq<FeeInput>,
    p: int,
    i: int,
)
    requires
        is_refreshed(previous, current, refreshed),
        0 <= p < previous.len(),
        0 <= i < current.len(),
        current[i].source@ == previous[p].source@,
        current[i].currency@ == previous[p].currency@,
        forall|j: int|
            i < j < current.len() ==> (#[trigger] current[j]).source@ != previous[p].source@
                || current[j].currency@ != previous[p].currency@,
        forall|q: int|
            0 <= q < p ==> (#[trigger] previous[q]).source@ != previous[p].source@
                || previous[q].currency@ != previous[p].currency@,
    ensures
        refreshed[p].present == current[i].present,
        refreshed[p].label == current[i].label,
        refreshed[p].balance == current[i].balance,
        refreshed[p].currency == current[i].currency,
        refreshed[p].source == current[i].source,
        refreshed[p].description == previous[p].description,
        refreshed[p].amount == previous[p].amount,
        refreshed[p].selected == previous[p].selected,
{
    let key = fee_key(previous[p]);
    fees_are_found_again(current[i], previous[p]);
    assert(fee_key(current[i]) == key);
    assert(has_key(current, current.len() as int, key));
    assert forall|q: int| 0 <= q < p implies fee_key(#[trigger] previous[q]) != key by {
        fees_are_found_again(previous[q], previous[p]);
    }
    assert(!has_key(previous, p, key));
    assert(crate::invoices::fees::carries_over(previous, current, p, refreshed[p]));
    let k = choose|k: int| #[trigger]
        is_latest(current, k) && fee_key(current[k]) == key && refreshed[p]
            == crate::invoices::fees::kept(previous[p], current[k]);
    fees_are_found_again(current[k], previous[p]);
    if k < i {
        assert(fee_key(current[i]) != fee_key(current[k]));
    }
    assert(k == i);
}

/// A fee that repeats an edited one is marked as gone.
pub proof fn repeated_fees_are_gone(
    previous: Seq<FeeInput>,
    current: Seq<FeeInput>,
    refreshed: Seq<FeeInput>,
    q: int,
    p: int,
)
    requires
        is_refreshed(previous, current, refreshed),
        0 <= q < p < previous.len(),
        previous[q].source@ == previous[p].source@,
        previous[q].currency@ == previous[p].currency@,
    ensures
        refreshed[p] == (FeeInput { present: false, ..previous[p] }),
{
    fees_are_found_again(previous[q], previous[p]);
    assert(has_key(previous, p, fee_key(previous[p])));
    assert(crate::invoices::fees::carries_over(previous, current, p, refreshed[p]));
}

/// Every fee that is new is there after the edited ones, as it is now but not selected, and
/// nothing else is.
pub proof fn new_fees_are_all_there(
    previous: Seq<FeeInput>,
    current: Seq<FeeInput>,
    i: int,
    k: int,
)
    ensures
        0 <= i < current.len() && is_latest(current, i) && !has_key(
            previous,
            previous.len() as int,
            fee_key(current[i]),
        ) ==> new_fees(previous, current).contains(FeeInput { selected: false, ..current[i] }),
        0 <= k < new_fees(previous, current).len() ==> exists|j: int|
            0 <= j < current.len() && new_fees(previous, current)[k] == (FeeInput {
                selected: false,
                ..(#[trigger] current[j])
            }) && is_latest(current, j) && !has_key(
                previous,
                previous.len() as int,
                fee_key(current[j]),
            ),
{
    let n = current.len() as int;
    let places = new_places(previous, current, n);
    let keys = place_ranks(current, places);
    let order = sorted_order::<FeeKey>(keys);
    sorted_order_exists::<FeeKey>(keys);
    if 0 <= i < n && is_latest(current, i) && !has_key(
        previous,
        previous.len() as int,
        fee_key(current[i]),
    ) {
        let at = place_of_new(previous, current, n, i);
        assert(order.contains(at));
        let p = choose|p: int| 0 <= p < order.len() && order[p] == at;
        assert(new_fees(previous, current)[p] == (FeeInput { selected: false, ..current[i] }));
    }
    if 0 <= k < new_fees(previous, current).len() {
        assert(0 <= order[k] < keys.len());
        places_are_new(previous, current, n, order[k]);
        let j = places[order[k]];
        assert(new_fees(previous, current)[k] == (FeeInput { selected: false, ..current[j] }));
    }
}

proof fn place_of_new(previous: Seq<FeeInput>, current: Seq<FeeInput>, n: int, i: int) -> (at: int)
    requires
        0 <= i < n <= current.len(),
        is_latest(current, i),
        !has_key(previous, previous.len() as int, fee_key(current[i])),
    ensures
        0 <= at < new_places(previous, current, n).len(),
        new_places(previous, current, n)[at] == i,
    decreases n,
{
    if i == n - 1 {
        new_places(previous, current, n - 1).len() as int
    } else {
        place_of_new(previous, current, n - 1, i)
    }
}

proof fn places_are_new(previous: Seq<FeeInput>, current: Seq<FeeInput>, n: int, at: int)
    requires
        0 <= n <= current.len(),
        0 <= at < new_places(previous, current, n).len(),
    ensures
        0 <= new_places(previous, current, n)[at] < n,
        is_latest(current, new_places(previous, current, n)[at]),
        !has_key(
            previous,
            previous.len() as int,
            fee_key(current[new_places(previous, current, n)[at]]),
        ),
    decreases n,
{
    if n > 0 {
        if at < new_places(previous, current, n - 1).len() {
            places_are_new(previous, current, n - 1, at);
        }
    }
}

/// New fees stand by their project, then by their period and then by their currency.
pub proof fn new_fees_stand_in_order(
    previous: Seq<FeeInput>,
    current: Seq<FeeInput>,
    p: int,
    q: int,
)
    requires
        0 <= p < q < new_fees(previous, current).len(),
    ensures
        ({
            let a = fee_key(new_fees(previous, current)[p]);
            let b = fee_key(new_fees(previous, current)[q]);
            &&& a.0 <= b.0
            &&& a.0 == b.0 ==> !text_precedes(b.1, a.1)
            &&& a.0 == b.0 && a.1 == b.1 ==> !text_precedes(b.2, a.2)
        }),
{
    let places = new_places(previous, current, current.len() as int);
    let keys = place_ranks(current, places);
    let order = sorted_order::<FeeKey>(keys);
    sorted_order_exists::<FeeKey>(keys);
    assert(0 <= order[p] < keys.len() && 0 <= order[q] < keys.len());
    assert(comes_first::<FeeKey>(keys, order[p], order[q]));
    let (a, b) = (keys[order[p]], keys[order[q]]);
    assert(a == fee_key(current[places[order[p]]]));
    assert(b == fee_key(current[places[order[q]]]));
    assert(fee_key(new_fees(previous, current)[p]) == a);
    assert(fee_key(new_fees(previous, current)[q]) == b);
    if FeeKey::precedes(a, b) {
        FeeKey::asymmetric(a, b);
    }
}

/// A fee is read where it is still there, described and of an exact amount that is not negative;
/// a selected one of nothing only where nothing was agreed.
pub proof fn fees_are_read_as_edited(fee: FeeInput)
    ensures
        read_fee(fee) is Ok <==> fee.present && trimmed(fee.description@).len() > 0
            && fee.description@.len() <= 1000 && !fee.description@.contains('\0') && parsed_cents(
            fee.amount@,
        ) is Some && parsed_cents(fee.amount@)->0 >= 0 && (parsed_cents(fee.amount@)->0 > 0
            || !fee.selected || fee.balance.agreed_cents == 0),
        read_fee(fee) is Ok ==> read_fee(fee)->Ok_0 == parsed_cents(fee.amount@)->0,
        !fee.present ==> read_fee(fee) == Err::<i64, Seq<char>>(
            "Remove unavailable fee edits before reviewing the invoice."@,
        ),
{
}

/// Fees that are typed are invoiced one for one, in their order, where each of them is read;
/// else the first that is not says why.
pub proof fn typed_fees_are_invoiced(fees: Seq<FeeInput>, i: int)
    ensures
        read_selections(fees) is Ok <==> forall|k: int|
            0 <= k < fees.len() ==> read_fee(#[trigger] fees[k]) is Ok,
        read_selections(fees) is Ok ==> read_selections(fees)->Ok_0.len() == fees.len(),
        read_selections(fees) is Ok && 0 <= i < fees.len() ==> {
            let read = read_selections(fees)->Ok_0[i];
            &&& read.source == fees[i].source@
            &&& read.description == fees[i].description@
            &&& read.amount_cents == parsed_cents(fees[i].amount@)->0
            &&& read.selected == fees[i].selected
        },
        0 <= i < fees.len() && read_fee(fees[i]) is Err && (forall|k: int|
            0 <= k < i ==> read_fee(#[trigger] fees[k]) is Ok) ==> read_selections(fees) == Err::<
            Seq<Selection>,
            Seq<char>,
        >(read_fee(fees[i])->Err_0),
    decreases fees.len(),
{
    if fees.len() > 0 {
        let before = fees.drop_last();
        typed_fees_are_invoiced(before, i);
        assert forall|k: int| 0 <= k < before.len() implies #[trigger] before[k] == fees[k] by {}
        if read_selections(fees) is Ok {
            assert forall|k: int| 0 <= k < fees.len() implies read_fee(#[trigger] fees[k]) is Ok by {
                if k < before.len() {
                    assert(read_fee(before[k]) is Ok);
                }
            }
        }
        if forall|k: int| 0 <= k < fees.len() ==> read_fee(#[trigger] fees[k]) is Ok {
            assert forall|k: int| 0 <= k < before.len() implies read_fee(#[trigger] before[k])
                is Ok by {
                assert(read_fee(fees[k]) is Ok);
            }
            assert(read_fee(fees[fees.len() - 1]) is Ok);
        }
        if 0 <= i < fees.len() && read_fee(fees[i]) is Err && (forall|k: int|
            0 <= k < i ==> read_fee(#[trigger] fees[k]) is Ok) {
            assert forall|k: int| 0 <= k < i implies read_fee(#[trigger] before[k]) is Ok by {
                assert(read_fee(fees[k]) is Ok);
            }
            if i < before.len() {
                assert(read_fee(before[i]) is Err);
            }
        }
    }
}

/// What a fee is selected as is what was typed for it.
pub proof fn selections_are_of_their_fee(selection: InvoiceFeeSelection, fee: FeeInput)
    requires
        selection.is_of(fee),
    ensures
        selection.source == fee.source,
        selection.description@ == fee.description@,
        selection.selected == fee.selected,
        Some(selection.amount_cents) == parsed_cents(fee.amount@),
        fee.present,
{
}

// ---- Choosing and showing ----

/// Choosing a project changes whether it is chosen, and no other's choice.
pub proof fn projects_are_chosen_one_at_a_time(
    ids: Seq<Seq<char>>,
    id: Seq<char>,
    other: Seq<char>,
)
    ensures
        toggled_project(ids, id).contains(id) <==> !ids.contains(id),
        other != id ==> (toggled_project(ids, id).contains(other) <==> ids.contains(other)),
{
    filter_holds(ids, other_text(id), id);
    filter_holds(ids, other_text(id), other);
    let more = ids.push(id);
    sorting_keeps_texts(more, id);
    sorting_keeps_texts(more, other);
    assert(more[ids.len() as int] == id);
    if ids.contains(other) {
        let i = choose|i: int| 0 <= i < ids.len() && ids[i] == other;
        assert(more[i] == other);
    }
    if more.contains(other) {
        let i = choose|i: int| 0 <= i < more.len() && more[i] == other;
        if i < ids.len() {
            assert(ids[i] == other);
        }
    }
}

proof fn sorting_keeps_texts(texts: Seq<Seq<char>>, text: Seq<char>)
    ensures
        sorted_texts(texts).contains(text) <==> texts.contains(text),
{
    let order = sorted_order::<TextKey>(texts);
    sorted_order_exists::<TextKey>(texts);
    let sorted = sorted_texts(texts);
    if texts.contains(text) {
        let i = choose|i: int| 0 <= i < texts.len() && texts[i] == text;
        assert(order.contains(i));
        let p = choose|p: int| 0 <= p < order.len() && order[p] == i;
        assert(sorted[p] == text);
    }
    if sorted.contains(text) {
        let p = choose|p: int| 0 <= p < sorted.len() && sorted[p] == text;
        assert(0 <= order[p] < texts.len());
        assert(texts[order[p]] == text);
    }
}

/// Projects that were chosen one by one stand in order.
pub proof fn chosen_projects_stand_in_order(
    ids: Seq<Seq<char>>,
    id: Seq<char>,
    p: int,
    q: int,
)
    requires
        !ids.contains(id),
        0 <= p < q < toggled_project(ids, id).len(),
    ensures
        toggled_project(ids, id).len() == ids.len() + 1,
        !text_precedes(toggled_project(ids, id)[q], toggled_project(ids, id)[p]),
{
    let texts = ids.push(id);
    let order = sorted_order::<TextKey>(texts);
    sorted_order_exists::<TextKey>(texts);
    assert(comes_first::<TextKey>(texts, order[p], order[q]));
    let (a, b) = (texts[order[p]], texts[order[q]]);
    if TextKey::precedes(a, b) {
        TextKey::asymmetric(a, b);
    }
}

proof fn first_charge_is_first(lines: Seq<PreparedLine>, source: crate::invoices::fees::Source, i: int)
    requires
        0 <= i <= lines.len(),
        forall|k: int| 0 <= k < i ==> (#[trigger] lines[k]).source@ != source,
    ensures
        i <= first_charge(lines, source, i) <= lines.len(),
        forall|k: int|
            0 <= k < first_charge(lines, source, i) ==> (#[trigger] lines[k]).source@ != source,
        first_charge(lines, source, i) < lines.len() ==> lines[first_charge(
            lines,
            source,
            i,
        )].source@ == source,
    decreases lines.len() - i,
{
    if i < lines.len() && lines[i].source@ != source {
        first_charge_is_first(lines, source, i + 1);
    }
}

/// An excess is told by the description of the first charge from its source, and its exact
/// amount, and no more are told than there are.
pub proof fn excesses_are_told_by_their_charge(review: InvoicePreparation, n: int, e: int, c: int)
    requires
        0 <= e < n <= review.excess.len(),
        0 <= c < review.lines.len(),
        review.lines@[c].source@ == review.excess@[e].source@,
        forall|k: int|
            0 <= k < c ==> (#[trigger] review.lines@[k]).source@ != review.excess@[e].source@,
    ensures
        excess_texts(review, n).contains(
            review.lines@[c].description@ + " · Excess: "@ + review.currency@ + " "@ + cents_text(
                review.excess@[e].excess_cents as int,
            ),
        ),
        excess_texts(review, n).len() <= n,
    decreases n,
{
    let text = excess_text(
        review.lines@[c].description@,
        review.currency@,
        review.excess@[e].excess_cents as int,
    );
    first_charge_is_first(review.lines@, review.excess@[n - 1].source@, 0);
    let before = excess_texts(review, n - 1);
    excess_texts_are_few(review, n);
    if e == n - 1 {
        let at = first_charge(review.lines@, review.excess@[e].source@, 0);
        if at < c {
            assert(review.lines@[at].source@ != review.excess@[e].source@);
        }
        assert(at == c);
        assert(excess_texts(review, n)[before.len() as int] == text);
    } else {
        excesses_are_told_by_their_charge(review, n - 1, e, c);
        let i = choose|i: int| 0 <= i < before.len() && before[i] == text;
        assert(excess_texts(review, n)[i] == text);
    }
}

proof fn excess_texts_are_few(review: InvoicePreparation, n: int)
    requires
        0 <= n,
    ensures
        excess_texts(review, n).len() <= n,
    decreases n,
{
    if n > 0 {
        excess_texts_are_few(review, n - 1);
    }
}

/// A draft can be sent or voided, what was sent can be paid or voided, and nothing becomes of
/// what was paid or voided. The first of them is what is offered first.
pub proof fn invoices_move_on(status: InvoiceStatus, to: InvoiceStatus)
    ensures
        (exists|i: int| 0 <= i < next(status).len() && (#[trigger] next(status)[i]).to == to) <==> (
        status == InvoiceStatus::Draft && (to == InvoiceStatus::Sent || to == InvoiceStatus::Void))
            || (status == InvoiceStatus::Sent && (to == InvoiceStatus::Paid || to
            == InvoiceStatus::Void)),
        forall|i: int|
            0 <= i < next(status).len() ==> ((#[trigger] next(status)[i]).primary
                <==> next(status)[i].to != InvoiceStatus::Void),
        status_text(status) == status_text(to) ==> status == to,
{
    let offered = next(status);
    if status == InvoiceStatus::Draft {
        assert(offered[0].to == InvoiceStatus::Sent);
        assert(offered[1].to == InvoiceStatus::Void);
    }
    if status == InvoiceStatus::Sent {
        assert(offered[0].to == InvoiceStatus::Paid);
        assert(offered[1].to == InvoiceStatus::Void);
    }
    reveal_strlit("draft");
    reveal_strlit("sent");
    reveal_strlit("paid");
    reveal_strlit("void");
    assert("sent"@[0] == 's' && "paid"@[0] == 'p' && "void"@[0] == 'v' && "draft"@[0] == 'd');
}

/// A status is called by its own word in a request.
pub proof fn statuses_are_called_by_their_words(status: InvoiceStatus)
    ensures
        status_text(status) == "draft"@ <==> status == InvoiceStatus::Draft,
        status_text(status) == "sent"@ <==> status == InvoiceStatus::Sent,
        status_text(status) == "paid"@ <==> status == InvoiceStatus::Paid,
        status_text(status) == "void"@ <==> status == InvoiceStatus::Void,
{
    reveal_strlit("draft");
    reveal_strlit("sent");
    reveal_strlit("paid");
    reveal_strlit("void");
    assert("sent"@[0] == 's' && "paid"@[0] == 'p' && "void"@[0] == 'v' && "draft"@[0] == 'd');
}

/// Every excess of an edited draft is told by its period and exact amount, and only what exceeds
/// is told.
pub proof fn excesses_are_told_by_their_period(
    fees: Seq<FeeReview>,
    currency: Seq<char>,
    n: int,
    i: int,
)
    requires
        0 <= n <= fees.len(),
    ensures
        0 <= i < n && fees[i].excess_cents > 0 ==> crate::invoices::editing::excess_texts(
            fees,
            currency,
            n,
        ).contains(
            fees[i].period_key@ + " · Excess: "@ + currency + " "@ + cents_text(
                fees[i].excess_cents as int,
            ),
        ),
        (forall|k: int| 0 <= k < n ==> (#[trigger] fees[k]).excess_cents <= 0)
            ==> crate::invoices::editing::excess_texts(fees, currency, n).len() == 0,
        (forall|k: int| 0 <= k < n ==> (#[trigger] fees[k]).excess_cents > 0)
            ==> crate::invoices::editing::excess_texts(fees, currency, n).len() == n,
    decreases n,
{
    if n > 0 {
        excesses_are_told_by_their_period(fees, currency, n - 1, i);
        let before = crate::invoices::editing::excess_texts(fees, currency, n - 1);
        let told = crate::invoices::editing::excess_texts(fees, currency, n);
        if 0 <= i < n && fees[i].excess_cents > 0 {
            let text = excess_text(fees[i].period_key@, currency, fees[i].excess_cents as int);
            if i == n - 1 {
                assert(told[before.len() as int] == text);
            } else {
                let k = choose|k: int| 0 <= k < before.len() && before[k] == text;
                assert(told[k] == text);
            }
        }
    }
}

/// A fee in its fields can be sent back as it was: its line and description are its own, and
/// its amount reads back.
pub proof fn written_fees_read_back(input: FeeLineInput, fee: InvoiceFeeEdit)
    requires
        is_written(input, fee),
    ensures
        input.id == fee.line_id,
        input.description@ == fee.description@,
        parsed_cents(input.amount@) == Some(fee.amount_cents),
{
    crate::money::cents_read_back(fee.amount_cents);
}

/// No edited fee is dropped by a refresh, and each keeps its place.
pub proof fn edited_fees_keep_their_place(
    previous: Seq<FeeInput>,
    current: Seq<FeeInput>,
    refreshed: Seq<FeeInput>,
    p: int,
)
    requires
        is_refreshed(previous, current, refreshed),
        0 <= p < previous.len(),
    ensures
        refreshed.len() >= previous.len(),
        refreshed[p].source@ == previous[p].source@,
        refreshed[p].currency@ == previous[p].currency@,
        current.len() == 0 ==> refreshed.len() == previous.len() && !refreshed[p].present,
{
    assert(crate::invoices::fees::carries_over(previous, current, p, refreshed[p]));
}

/// A plus before the days changes nothing, and behind a minus only no days can stand.
pub proof fn terms_may_have_a_sign(s: Seq<char>, digits: Seq<char>)
    requires
        is_number(digits),
        number(digits) <= 365,
    ensures
        trimmed(s) == seq!['+'] + digits ==> read_terms(s) == Some(number(digits) as int),
        trimmed(s) == seq!['-'] + digits && number(digits) == 0 ==> read_terms(s) == Some(0int),
        trimmed(s) == seq!['-'] + digits && number(digits) > 0 ==> read_terms(s) is None,
{
    assert((seq!['+'] + digits).subrange(1, digits.len() as int + 1) =~= digits);
    assert((seq!['-'] + digits).subrange(1, digits.len() as int + 1) =~= digits);
}

/// An excess from a source without a charge is not told.
pub proof fn excesses_without_a_charge_are_not_told(review: InvoicePreparation, n: int)
    requires
        0 <= n <= review.excess.len(),
        forall|e: int, c: int|
            0 <= e < n && 0 <= c < review.lines.len() ==> (#[trigger] review.lines@[c]).source@ != (
            #[trigger] review.excess@[e]).source@,
    ensures
        excess_texts(review, n).len() == 0,
    decreases n,
{
    if n > 0 {
        excesses_without_a_charge_are_not_told(review, n - 1);
        first_charge_is_first(review.lines@, review.excess@[n - 1].source@, 0);
        let at = first_charge(review.lines@, review.excess@[n - 1].source@, 0);
        if at < review.lines.len() {
            assert(review.lines@[at].source@ != review.excess@[n - 1].source@);
        }
    }
}

} // verus!

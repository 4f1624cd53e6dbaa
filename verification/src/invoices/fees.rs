//! The fees of an invoice that is being prepared.

use crate::invoices::defaults_form::is_short;
use crate::invoices::defaults_form::short_enough;
use crate::money::cents_text;
use crate::money::format_cents_plain;
use crate::money::parse_cents;
use crate::money::parsed_cents;
use crate::order::ranks;
use crate::order::sort_order;
use crate::order::sorted_order;
use crate::order::text_asymmetric;
use crate::order::text_comes_before;
use crate::order::text_negatively_transitive;
use crate::order::text_precedes;
use crate::order::text_total;
use crate::order::SortKey;
use crate::text::chars_of;
use crate::text::same;
use crate::text::trim;
use crate::text::trimmed;
use vstd::prelude::*;

verus! {

/// What is charged for: tracked time, known by a key, or a fee for a period of a project.
#[derive(Debug)]
pub enum InvoiceSource {
    Time { key: String },
    Fee { project_id: u128, period_key: String },
}

impl Clone for InvoiceSource {
    fn clone(&self) -> (copy: Self)
        ensures
            copy == *self,
    {
        match self {
            InvoiceSource::Time { key } => InvoiceSource::Time { key: key.clone() },
            InvoiceSource::Fee { project_id, period_key } => InvoiceSource::Fee {
                project_id: *project_id,
                period_key: period_key.clone(),
            },
        }
    }
}

/// What a source is.
pub enum Source {
    Time { key: Seq<char> },
    Fee { project_id: u128, period_key: Seq<char> },
}

impl View for InvoiceSource {
    type V = Source;

    open spec fn view(&self) -> Source {
        match *self {
            InvoiceSource::Time { key } => Source::Time { key: key@ },
            InvoiceSource::Fee { project_id, period_key } => Source::Fee {
                project_id,
                period_key: period_key@,
            },
        }
    }
}

impl Source {
    /// What sources are sorted by: time before fees, then the project and the period.
    pub open spec fn place(self) -> (int, Seq<char>) {
        match self {
            Source::Time { key } => (-1int, key),
            Source::Fee { project_id, period_key } => (project_id as int, period_key),
        }
    }
}

impl InvoiceSource {
    /// The project of a fee; time has none.
    fn project(&self) -> (project: Option<u128>)
        ensures
            self@.place().0 == (match project {
                Some(id) => id as int,
                None => -1,
            }),
    {
        match self {
            InvoiceSource::Time { .. } => None,
            InvoiceSource::Fee { project_id, .. } => Some(*project_id),
        }
    }

    /// The key of the time or of the period.
    fn key(&self) -> (key: &str)
        ensures
            key@ == self@.place().1,
    {
        match self {
            InvoiceSource::Time { key } => key.as_str(),
            InvoiceSource::Fee { period_key, .. } => period_key.as_str(),
        }
    }

    /// Whether two sources are the same.
    pub fn equals(&self, other: &InvoiceSource) -> (equal: bool)
        ensures
            equal == (self@ == other@),
    {
        match (self, other) {
            (InvoiceSource::Time { key }, InvoiceSource::Time { key: other }) => same(
                key.as_str(),
                other.as_str(),
            ),
            (
                InvoiceSource::Fee { project_id, period_key },
                InvoiceSource::Fee { project_id: other_id, period_key: other_key },
            ) => *project_id == *other_id && same(period_key.as_str(), other_key.as_str()),
            _ => false,
        }
    }
}

/// What of a fee was agreed, invoiced and is left, in cents.
#[derive(Clone, Copy, PartialEq, Eq, Structural, Debug)]
pub struct InvoiceFeeBalance {
    pub agreed_cents: i64,
    pub invoiced_cents: i64,
    pub remaining_cents: i64,
}

/// A charge of a reviewed invoice.
#[derive(Debug)]
pub struct PreparedLine {
    pub source: InvoiceSource,
    pub description: String,
    /// The time that is charged; fees have none.
    pub minutes: Option<u32>,
    pub rate_cents: Option<i64>,
    pub amount_cents: i64,
    pub net_before_tax_cents: Option<i64>,
    pub selected: bool,
    pub currency: String,
    /// The balance of a fee; charges for time have none.
    pub fee_balance: Option<InvoiceFeeBalance>,
}

impl Clone for PreparedLine {
    fn clone(&self) -> (copy: Self)
        ensures
            copy == *self,
    {
        PreparedLine {
            source: self.source.clone(),
            description: self.description.clone(),
            minutes: self.minutes,
            rate_cents: self.rate_cents,
            amount_cents: self.amount_cents,
            net_before_tax_cents: self.net_before_tax_cents,
            selected: self.selected,
            currency: self.currency.clone(),
            fee_balance: self.fee_balance,
        }
    }
}

/// A fee as it is being edited. One that is not `present` has gone from the sources.
#[derive(Debug)]
pub struct FeeInput {
    pub present: bool,
    pub source: InvoiceSource,
    pub label: String,
    pub description: String,
    pub amount: String,
    pub selected: bool,
    pub currency: String,
    pub balance: InvoiceFeeBalance,
}

impl Clone for FeeInput {
    fn clone(&self) -> (copy: Self)
        ensures
            copy == *self,
    {
        FeeInput {
            present: self.present,
            source: self.source.clone(),
            label: self.label.clone(),
            description: self.description.clone(),
            amount: self.amount.clone(),
            selected: self.selected,
            currency: self.currency.clone(),
            balance: self.balance,
        }
    }
}

impl FeeInput {
    /// Whether this is the input for a reviewed fee, as it was reviewed.
    pub open spec fn is_from(self, line: PreparedLine) -> bool {
        &&& self.present
        &&& self.source == line.source
        &&& self.label@ == line.description@
        &&& self.description@ == line.description@
        &&& self.amount@ == cents_text(line.amount_cents as int)
        &&& self.selected == line.selected
        &&& self.currency@ == line.currency@
        &&& line.fee_balance == Some(self.balance)
    }
}

/// The fees among the first `n` lines.
pub open spec fn fee_lines(lines: Seq<PreparedLine>, n: int) -> Seq<PreparedLine>
    decreases n,
{
    if n <= 0 {
        Seq::empty()
    } else if lines[n - 1].fee_balance is Some {
        fee_lines(lines, n - 1).push(lines[n - 1])
    } else {
        fee_lines(lines, n - 1)
    }
}

/// The inputs for the fees of a reviewed invoice, in their order.
pub fn from_review(lines: &Vec<PreparedLine>) -> (fees: Vec<FeeInput>)
    ensures
        ({
            let reviewed = fee_lines(lines@, lines.len() as int);
            &&& fees.len() == reviewed.len()
            &&& forall|i: int|
                0 <= i < reviewed.len() ==> (#[trigger] fees@[i]).is_from(reviewed[i])
        }),
{
    let mut fees: Vec<FeeInput> = Vec::new();
    let mut i: usize = 0;
    while i < lines.len()
        invariant
            i <= lines.len(),
            fees.len() == fee_lines(lines@, i as int).len(),
            forall|k: int|
                0 <= k < fees.len() ==> (#[trigger] fees@[k]).is_from(
                    fee_lines(lines@, i as int)[k],
                ),
        decreases lines.len() - i,
    {
        let line = &lines[i];
        if let Some(balance) = line.fee_balance {
            fees.push(
                FeeInput {
                    present: true,
                    source: line.source.clone(),
                    label: line.description.clone(),
                    description: line.description.clone(),
                    amount: format_cents_plain(line.amount_cents),
                    selected: line.selected,
                    currency: line.currency.clone(),
                    balance,
                },
            );
        }
        i += 1;
    }
    fees
}

/// What a fee is found again by: its source and its currency.
pub open spec fn fee_key(fee: FeeInput) -> (int, Seq<char>, Seq<char>) {
    (fee.source@.place().0, fee.source@.place().1, fee.currency@)
}

/// A fee's key for sorting: project, period, currency.
pub struct FeeKey {
    pub project_id: Option<u128>,
    pub period_key: Vec<char>,
    pub currency: Vec<char>,
}

impl SortKey for FeeKey {
    type Rank = (int, Seq<char>, Seq<char>);

    open spec fn rank(&self) -> (int, Seq<char>, Seq<char>) {
        (
            match self.project_id {
                Some(id) => id as int,
                None => -1,
            },
            self.period_key@,
            self.currency@,
        )
    }

    open spec fn precedes(
        a: (int, Seq<char>, Seq<char>),
        b: (int, Seq<char>, Seq<char>),
    ) -> bool {
        a.0 < b.0 || (a.0 == b.0 && (text_precedes(a.1, b.1) || (a.1 == b.1 && text_precedes(
            a.2,
            b.2,
        ))))
    }

    proof fn asymmetric(a: (int, Seq<char>, Seq<char>), b: (int, Seq<char>, Seq<char>)) {
        if a.0 == b.0 {
            if text_precedes(a.1, b.1) {
                text_asymmetric(a.1, b.1);
            } else {
                text_asymmetric(a.2, b.2);
            }
            if a.1 == b.1 && text_precedes(a.1, b.1) {
                text_asymmetric(a.1, a.1);
            }
        }
    }

    proof fn negatively_transitive(
        a: (int, Seq<char>, Seq<char>),
        b: (int, Seq<char>, Seq<char>),
        c: (int, Seq<char>, Seq<char>),
    ) {
        if a.0 == b.0 && b.0 == c.0 {
            if text_precedes(a.1, b.1) {
                text_negatively_transitive(a.1, b.1, c.1);
            } else if !text_precedes(b.1, c.1) {
                text_total(b.1, c.1);
                text_negatively_transitive(a.2, b.2, c.2);
            }
        }
    }

    fn comes_before(&self, other: &Self) -> (r: bool) {
        match (self.project_id, other.project_id) {
            (None, None) => {},
            (None, Some(_)) => {
                return true;
            },
            (Some(_), None) => {
                return false;
            },
            (Some(id), Some(other_id)) => {
                if id != other_id {
                    return id < other_id;
                }
            },
        }
        if text_comes_before(&self.period_key, &other.period_key) {
            return true;
        }
        if text_comes_before(&other.period_key, &self.period_key) {
            proof {
                if self.period_key@ == other.period_key@ {
                    text_asymmetric(other.period_key@, self.period_key@);
                }
            }
            return false;
        }
        proof {
            text_total(self.period_key@, other.period_key@);
        }
        text_comes_before(&self.currency, &other.currency)
    }
}

fn same_key(a: &FeeInput, b: &FeeInput) -> (r: bool)
    ensures
        r == (fee_key(*a) == fee_key(*b)),
{
    a.source.equals(&b.source) && same(a.currency.as_str(), b.currency.as_str())
}

/// Whether some of the first `n` fees has a key.
pub open spec fn has_key(fees: Seq<FeeInput>, n: int, key: (int, Seq<char>, Seq<char>)) -> bool {
    exists|i: int| 0 <= i < n && fee_key(#[trigger] fees[i]) == key
}

/// Whether the fee at `i` is the last one with its key.
pub open spec fn is_latest(fees: Seq<FeeInput>, i: int) -> bool {
    &&& 0 <= i < fees.len()
    &&& forall|j: int| i < j < fees.len() ==> fee_key(#[trigger] fees[j]) != fee_key(fees[i])
}

/// A fee that is still there: what was edited is kept, the rest is as it is now.
pub open spec fn kept(old_fee: FeeInput, now: FeeInput) -> FeeInput {
    FeeInput {
        description: old_fee.description,
        amount: old_fee.amount,
        selected: old_fee.selected,
        ..now
    }
}

/// A fee that has gone: what was edited is kept, and it is marked.
pub open spec fn gone(old_fee: FeeInput) -> FeeInput {
    FeeInput { present: false, ..old_fee }
}

/// A fee that is new: not selected.
pub open spec fn unselected(now: FeeInput) -> FeeInput {
    FeeInput { selected: false, ..now }
}

/// Whether `fee` is what becomes of the fee at `p` of the previous ones: it is kept where
/// it is still there and not yet taken by one before it, and marked as gone otherwise.
pub open spec fn carries_over(
    previous: Seq<FeeInput>,
    current: Seq<FeeInput>,
    p: int,
    fee: FeeInput,
) -> bool {
    let key = fee_key(previous[p]);
    if has_key(current, current.len() as int, key) && !has_key(previous, p, key) {
        exists|i: int| #[trigger]
            is_latest(current, i) && fee_key(current[i]) == key && fee == kept(
                previous[p],
                current[i],
            )
    } else {
        fee == gone(previous[p])
    }
}

/// The places of the new fees among the first `n` current ones.
pub open spec fn new_places(previous: Seq<FeeInput>, current: Seq<FeeInput>, n: int) -> Seq<int>
    decreases n,
{
    if n <= 0 {
        Seq::empty()
    } else if is_latest(current, n - 1) && !has_key(
        previous,
        previous.len() as int,
        fee_key(current[n - 1]),
    ) {
        new_places(previous, current, n - 1).push(n - 1)
    } else {
        new_places(previous, current, n - 1)
    }
}

/// The keys of the fees at some places.
pub open spec fn place_ranks(current: Seq<FeeInput>, places: Seq<int>) -> Seq<
    (int, Seq<char>, Seq<char>),
> {
    places.map_values(|i: int| fee_key(current[i]))
}

/// The new fees, not selected, by source and currency.
pub open spec fn new_fees(previous: Seq<FeeInput>, current: Seq<FeeInput>) -> Seq<FeeInput> {
    let places = new_places(previous, current, current.len() as int);
    let order = sorted_order::<FeeKey>(place_ranks(current, places));
    Seq::new(places.len(), |k: int| unselected(current[places[order[k]]]))
}

/// Whether `refreshed` are the previous fees, carried over, and after them the new ones.
pub open spec fn is_refreshed(
    previous: Seq<FeeInput>,
    current: Seq<FeeInput>,
    refreshed: Seq<FeeInput>,
) -> bool {
    &&& refreshed.len() == previous.len() + new_fees(previous, current).len()
    &&& forall|p: int|
        0 <= p < previous.len() ==> carries_over(previous, current, p, #[trigger] refreshed[p])
    &&& refreshed.subrange(previous.len() as int, refreshed.len() as int) == new_fees(
        previous,
        current,
    )
}

fn find_key(fees: &[FeeInput], n: usize, fee: &FeeInput) -> (found: bool)
    requires
        n <= fees.len(),
    ensures
        found == has_key(fees@, n as int, fee_key(*fee)),
{
    let mut i: usize = 0;
    while i < n
        invariant
            i <= n <= fees.len(),
            forall|k: int| 0 <= k < i ==> fee_key(#[trigger] fees@[k]) != fee_key(*fee),
        decreases n - i,
    {
        if same_key(&fees[i], fee) {
            proof {
                assert(fee_key(fees@[i as int]) == fee_key(*fee));
            }
            return true;
        }
        i += 1;
    }
    false
}

/// The last fee with the key of `fee`.
fn find_latest(fees: &Vec<FeeInput>, fee: &FeeInput) -> (found: Option<usize>)
    ensures
        match found {
            Some(i) => is_latest(fees@, i as int) && fee_key(fees@[i as int]) == fee_key(*fee),
            None => true,
        },
        found is Some <==> has_key(fees@, fees.len() as int, fee_key(*fee)),
{
    let mut i: usize = fees.len();
    while i > 0
        invariant
            i <= fees.len(),
            forall|k: int| i <= k < fees.len() ==> fee_key(#[trigger] fees@[k]) != fee_key(*fee),
        decreases i,
    {
        i -= 1;
        if same_key(&fees[i], fee) {
            proof {
                assert(fee_key(fees@[i as int]) == fee_key(*fee));
            }
            return Some(i);
        }
    }
    None
}

fn is_last_of_key(fees: &Vec<FeeInput>, i: usize) -> (r: bool)
    requires
        i < fees.len(),
    ensures
        r == is_latest(fees@, i as int),
{
    match find_latest(fees, &fees[i]) {
        Some(j) => {
            proof {
                if j as int != i as int {
                    if i < j {
                        assert(fee_key(fees@[j as int]) == fee_key(fees@[i as int]));
                    } else {
                        assert(fee_key(fees@[i as int]) != fee_key(fees@[j as int]));
                    }
                }
            }
            i == j
        },
        None => {
            proof {
                assert(fee_key(fees@[i as int]) == fee_key(fees@[i as int]));
            }
            false
        },
    }
}

fn collect_new(previous: &[FeeInput], current: &Vec<FeeInput>) -> (fees: Vec<FeeInput>)
    ensures
        fees@ == new_fees(previous@, current@),
{
    let ghost all = new_places(previous@, current@, current.len() as int);
    let mut places: Vec<usize> = Vec::new();
    let mut keys: Vec<FeeKey> = Vec::new();
    let mut i: usize = 0;
    while i < current.len()
        invariant
            i <= current.len(),
            places.len() == keys.len(),
            places@.map_values(|p: usize| p as int) == new_places(previous@, current@, i as int),
            forall|k: int| 0 <= k < places.len() ==> #[trigger] places@[k] < i,
            forall|k: int|
                0 <= k < keys.len() ==> (#[trigger] keys@[k]).rank() == fee_key(
                    current@[places@[k] as int],
                ),
        decreases current.len() - i,
    {
        if is_last_of_key(current, i) && !find_key(previous, previous.len(), &current[i]) {
            let ghost before = places@;
            places.push(i);
            keys.push(
                FeeKey {
                    project_id: current[i].source.project(),
                    period_key: chars_of(current[i].source.key()),
                    currency: chars_of(current[i].currency.as_str()),
                },
            );
            proof {
                assert(places@.map_values(|p: usize| p as int) =~= before.map_values(
                    |p: usize| p as int,
                ).push(i as int));
            }
        }
        i += 1;
    }
    proof {
        assert(ranks(keys@) =~= place_ranks(current@, all)) by {
            assert forall|k: int| 0 <= k < keys.len() implies ranks(keys@)[k] == place_ranks(
                current@,
                all,
            )[k] by {
                assert(all[k] == places@[k]);
                assert(keys@[k].rank() == fee_key(current@[places@[k] as int]));
            }
        }
    }
    let order = sort_order(&keys);
    let ghost positions = order@.map_values(|i: usize| i as int);
    let mut fees: Vec<FeeInput> = Vec::new();
    let mut p: usize = 0;
    while p < order.len()
        invariant
            p <= order.len(),
            order.len() == places.len(),
            positions == order@.map_values(|i: usize| i as int),
            forall|i: int| 0 <= i < positions.len() ==> 0 <= #[trigger] positions[i] < places.len(),
            all == places@.map_values(|p: usize| p as int),
            forall|k: int| 0 <= k < places.len() ==> #[trigger] places@[k] < current.len(),
            fees.len() == p,
            forall|i: int|
                0 <= i < p ==> fees@[i] == unselected(current@[all[#[trigger] positions[i]]]),
        decreases order.len() - p,
    {
        proof {
            assert(positions[p as int] == order@[p as int]);
            assert(all[positions[p as int]] == places@[order@[p as int] as int]);
        }
        let mut fee = current[places[order[p]]].clone();
        fee.selected = false;
        fees.push(fee);
        p += 1;
    }
    proof {
        assert(fees@ =~= new_fees(previous@, current@));
    }
    fees
}

/// Refreshes fees that are being edited: what was edited is kept, also where the fee is
/// gone; new fees come after them, not selected.
pub fn refresh(previous: &[FeeInput], current: Vec<FeeInput>) -> (refreshed: Vec<FeeInput>)
    ensures
        is_refreshed(previous@, current@, refreshed@),
{
    let mut refreshed: Vec<FeeInput> = Vec::new();
    let mut p: usize = 0;
    while p < previous.len()
        invariant
            p <= previous.len(),
            refreshed.len() == p,
            forall|k: int|
                0 <= k < p ==> carries_over(previous@, current@, k, #[trigger] refreshed@[k]),
        decreases previous.len() - p,
    {
        let old_fee = &previous[p];
        let found = if find_key(previous, p, old_fee) {
            None
        } else {
            find_latest(&current, old_fee)
        };
        let fee = match found {
            Some(i) => {
                let mut fee = current[i].clone();
                fee.description = old_fee.description.clone();
                fee.amount = old_fee.amount.clone();
                fee.selected = old_fee.selected;
                fee
            },
            None => {
                let mut fee = old_fee.clone();
                fee.present = false;
                fee
            },
        };
        proof {
            if let Some(i) = found {
                assert(fee == kept(previous@[p as int], current@[i as int]));
                assert(is_latest(current@, i as int));
            } else {
                assert(fee == gone(previous@[p as int]));
            }
            assert(carries_over(previous@, current@, p as int, fee));
        }
        refreshed.push(fee);
        p += 1;
    }
    let mut added = collect_new(previous, &current);
    let ghost carried = refreshed@;
    refreshed.append(&mut added);
    proof {
        assert(refreshed@.subrange(previous.len() as int, refreshed.len() as int) =~= new_fees(
            previous@,
            current@,
        ));
        assert(forall|k: int| 0 <= k < previous.len() ==> refreshed@[k] == carried[k]);
    }
    refreshed
}

/// A fee to invoice.
#[derive(Debug)]
pub struct InvoiceFeeSelection {
    pub source: InvoiceSource,
    pub description: String,
    pub amount_cents: i64,
    pub selected: bool,
}

/// Whether a text describes a fee: 1 to 1000 characters, not blank, none null.
pub open spec fn is_description(s: Seq<char>) -> bool {
    trimmed(s).len() > 0 && is_short(s, 1000)
}

/// Whether a text describes a fee.
pub fn describes(text: &str) -> (r: bool)
    ensures
        r == is_description(text@),
{
    !trim(text).as_str().is_empty() && short_enough(text, 1000)
}

/// The amount of a fee, or why the fee is not taken.
pub open spec fn read_fee(fee: FeeInput) -> Result<i64, Seq<char>> {
    let amount = parsed_cents(fee.amount@);
    if !fee.present {
        Err("Remove unavailable fee edits before reviewing the invoice."@)
    } else if !is_description(fee.description@) {
        Err("Fee descriptions must contain 1–1000 characters without NUL."@)
    } else if amount is None {
        Err("Enter an exact fee amount with at most two decimal places."@)
    } else if amount->0 < 0 || (fee.selected && amount->0 == 0 && fee.balance.agreed_cents != 0) {
        Err("Selected fee amounts must be positive; unselected amounts cannot be negative."@)
    } else {
        Ok(amount->0)
    }
}

impl InvoiceFeeSelection {
    /// Whether this is the selection that a fee stands for.
    pub open spec fn is_of(self, fee: FeeInput) -> bool {
        &&& read_fee(fee) == Ok::<i64, Seq<char>>(self.amount_cents)
        &&& self.source == fee.source
        &&& self.description@ == fee.description@
        &&& self.selected == fee.selected
    }
}

fn parse_fee(fee: &FeeInput) -> (selection: Result<InvoiceFeeSelection, String>)
    ensures
        match selection {
            Ok(selection) => selection.is_of(*fee),
            Err(message) => read_fee(*fee) == Err::<i64, Seq<char>>(message@),
        },
{
    if !fee.present {
        return Err("Remove unavailable fee edits before reviewing the invoice.".to_owned());
    }
    if !describes(fee.description.as_str()) {
        return Err("Fee descriptions must contain 1–1000 characters without NUL.".to_owned());
    }
    match parse_cents(fee.amount.as_str()) {
        None => Err("Enter an exact fee amount with at most two decimal places.".to_owned()),
        Some(amount_cents) => {
            if amount_cents < 0 || (fee.selected && amount_cents == 0 && fee.balance.agreed_cents
                != 0) {
                return Err(
                    "Selected fee amounts must be positive; unselected amounts cannot be negative.".to_owned(),
                );
            }
            Ok(
                InvoiceFeeSelection {
                    source: fee.source.clone(),
                    description: fee.description.clone(),
                    amount_cents,
                    selected: fee.selected,
                },
            )
        },
    }
}

/// Reads the fees to invoice; an error is that of the first fee that is not taken.
pub fn parse(fees: &[FeeInput]) -> (selections: Result<Vec<InvoiceFeeSelection>, String>)
    ensures
        match selections {
            Ok(selections) => {
                &&& selections.len() == fees@.len()
                &&& forall|i: int|
                    0 <= i < fees@.len() ==> (#[trigger] selections@[i]).is_of(fees@[i])
            },
            Err(message) => exists|i: int|
                0 <= i < fees@.len() && read_fee(#[trigger] fees@[i]) == Err::<i64, Seq<char>>(
                    message@,
                ) && forall|k: int| 0 <= k < i ==> read_fee(#[trigger] fees@[k]) is Ok,
        },
{
    let mut selections: Vec<InvoiceFeeSelection> = Vec::new();
    let mut i: usize = 0;
    while i < fees.len()
        invariant
            i <= fees.len(),
            selections.len() == i,
            forall|k: int| 0 <= k < i ==> (#[trigger] selections@[k]).is_of(fees@[k]),
        decreases fees.len() - i,
    {
        match parse_fee(&fees[i]) {
            Ok(selection) => {
                selections.push(selection);
            },
            Err(message) => {
                proof {
                    assert forall|k: int| 0 <= k < i implies read_fee(#[trigger] fees@[k]) is Ok by {
                        assert(selections@[k].is_of(fees@[k]));
                    }
                }
                return Err(message);
            },
        }
        i += 1;
    }
    Ok(selections)
}

/// Refreshing keeps what was edited: description, amount and choice of every fee stay as
/// they were, whatever the sources are now.
pub proof fn refreshing_keeps_edits(
    previous: Seq<FeeInput>,
    current: Seq<FeeInput>,
    refreshed: Seq<FeeInput>,
    p: int,
)
    requires
        is_refreshed(previous, current, refreshed),
        0 <= p < previous.len(),
    ensures
        refreshed[p].description == previous[p].description,
        refreshed[p].amount == previous[p].amount,
        refreshed[p].selected == previous[p].selected,
        fee_key(refreshed[p]) == fee_key(previous[p]),
{
    assert(carries_over(previous, current, p, refreshed[p]));
}

/// Refreshing selects nothing that is new.
pub proof fn refreshing_selects_nothing_new(
    previous: Seq<FeeInput>,
    current: Seq<FeeInput>,
    refreshed: Seq<FeeInput>,
    p: int,
)
    requires
        is_refreshed(previous, current, refreshed),
        previous.len() <= p < refreshed.len(),
    ensures
        !refreshed[p].selected,
{
    let added = refreshed.subrange(previous.len() as int, refreshed.len() as int);
    assert(added[p - previous.len()] == refreshed[p]);
}

/// A fee whose source has gone, or whose currency has changed, is not invoiced: reading it
/// fails until it is removed.
pub proof fn missing_fees_are_not_read(
    previous: Seq<FeeInput>,
    current: Seq<FeeInput>,
    refreshed: Seq<FeeInput>,
    p: int,
)
    requires
        is_refreshed(previous, current, refreshed),
        0 <= p < previous.len(),
        !has_key(current, current.len() as int, fee_key(previous[p])),
    ensures
        !refreshed[p].present,
        read_fee(refreshed[p]) is Err,
{
    assert(carries_over(previous, current, p, refreshed[p]));
}

/// What the last review said of a fee; one that is over-invoiced is marked.
pub fn balance_line(fee: &FeeInput) -> (line: String)
    ensures
        line@ == "Last review · Agreed: "@ + fee.currency@ + " "@ + cents_text(
            fee.balance.agreed_cents as int,
        ) + " · Invoiced (including drafts): "@ + fee.currency@ + " "@ + cents_text(
            fee.balance.invoiced_cents as int,
        ) + " · Remaining: "@ + fee.currency@ + " "@ + cents_text(
            fee.balance.remaining_cents as int,
        ) + (if fee.balance.remaining_cents < 0 {
            " · Over-invoiced"@
        } else {
            Seq::empty()
        }),
{
    let mut line = "Last review · Agreed: ".to_owned();
    line.append(fee.currency.as_str());
    line.append(" ");
    line.append(format_cents_plain(fee.balance.agreed_cents).as_str());
    line.append(" · Invoiced (including drafts): ");
    line.append(fee.currency.as_str());
    line.append(" ");
    line.append(format_cents_plain(fee.balance.invoiced_cents).as_str());
    line.append(" · Remaining: ");
    line.append(fee.currency.as_str());
    line.append(" ");
    line.append(format_cents_plain(fee.balance.remaining_cents).as_str());
    if fee.balance.remaining_cents < 0 {
        line.append(" · Over-invoiced");
    } else {
        proof {
            assert(line@ + Seq::<char>::empty() =~= line@);
        }
    }
    line
}

} // verus!

//! Lists of identities and texts.

use crate::text::same;
use vstd::prelude::*;

verus! {

/// Whether `ids` holds `id`.
pub fn contains_id(ids: &Vec<u128>, id: u128) -> (found: bool)
    ensures
        found == ids@.contains(id),
{
    let mut i: usize = 0;
    while i < ids.len()
        invariant
            i <= ids.len(),
            forall|k: int| 0 <= k < i ==> ids@[k] != id,
        decreases ids.len() - i,
    {
        if ids[i] == id {
            return true;
        }
        i += 1;
    }
    false
}

/// Whether two lists hold the same identities in the same order.
pub fn same_ids(a: &Vec<u128>, b: &Vec<u128>) -> (equal: bool)
    ensures
        equal == (a@ == b@),
{
    if a.len() != b.len() {
        return false;
    }
    let mut i: usize = 0;
    while i < a.len()
        invariant
            i <= a.len(),
            a.len() == b.len(),
            forall|k: int| 0 <= k < i ==> a@[k] == b@[k],
        decreases a.len() - i,
    {
        if a[i] != b[i] {
            return false;
        }
        i += 1;
    }
    proof {
        assert(a@ =~= b@);
    }
    true
}

/// A copy of a list of identities.
pub fn copy_ids(ids: &Vec<u128>) -> (copy: Vec<u128>)
    ensures
        copy@ == ids@,
{
    let mut copy: Vec<u128> = Vec::new();
    let mut i: usize = 0;
    while i < ids.len()
        invariant
            i <= ids.len(),
            copy@ == ids@.take(i as int),
        decreases ids.len() - i,
    {
        proof {
            assert(ids@.take(i + 1) =~= ids@.take(i as int).push(ids@[i as int]));
        }
        copy.push(ids[i]);
        i += 1;
    }
    proof {
        assert(ids@.take(ids.len() as int) =~= ids@);
    }
    copy
}

/// The views of a list of texts.
pub open spec fn views(texts: Seq<String>) -> Seq<Seq<char>> {
    texts.map_values(|text: String| text@)
}

/// A copy of an optional text.
pub fn copy_text(text: &Option<String>) -> (copy: Option<String>)
    ensures
        copy == *text,
{
    match text {
        Some(text) => Some(text.clone()),
        None => None,
    }
}

/// What an optional text holds.
pub open spec fn opt_view(text: Option<String>) -> Option<Seq<char>> {
    match text {
        Some(text) => Some(text@),
        None => None,
    }
}

/// Filtering one more item.
pub proof fn filter_step<T>(items: Seq<T>, i: int, keep: spec_fn(T) -> bool)
    requires
        0 <= i < items.len(),
    ensures
        items.take(i + 1).filter(keep) == if keep(items[i]) {
            items.take(i).filter(keep).push(items[i])
        } else {
            items.take(i).filter(keep)
        },
{
    reveal(Seq::filter);
    assert(items.take(i + 1).drop_last() =~= items.take(i));
}

/// Filtering all items.
pub proof fn filter_all<T>(items: Seq<T>, keep: spec_fn(T) -> bool)
    ensures
        items.take(items.len() as int).filter(keep) == items.filter(keep),
        items.take(0).filter(keep) == Seq::<T>::empty(),
{
    reveal(Seq::filter);
    assert(items.take(items.len() as int) =~= items);
    assert(items.take(0) =~= Seq::<T>::empty());
}

/// Whether a text is another than the given one.
pub open spec fn other_text(text: Seq<char>) -> spec_fn(Seq<char>) -> bool {
    |other: Seq<char>| other != text
}

/// Removes every occurrence of a text.
pub fn remove_text(texts: &mut Vec<String>, text: &str)
    ensures
        views(final(texts)@) == views(old(texts)@).filter(other_text(text@)),
{
    let ghost before = texts@;
    let mut kept: Vec<String> = Vec::new();
    let mut i: usize = 0;
    proof {
        filter_all(views(before), other_text(text@));
        assert(views(kept@) =~= Seq::<Seq<char>>::empty());
    }
    while i < texts.len()
        invariant
            i <= texts.len(),
            texts@ == before,
            views(kept@) == views(before).take(i as int).filter(other_text(text@)),
        decreases texts.len() - i,
    {
        proof {
            filter_step(views(before), i as int, other_text(text@));
            assert(views(before)[i as int] == before[i as int]@);
        }
        let ghost so_far = kept@;
        if !same(texts[i].as_str(), text) {
            kept.push(texts[i].clone());
            proof {
                assert(views(kept@) =~= views(so_far).push(before[i as int]@));
            }
        }
        i += 1;
    }
    *texts = kept;
}

/// Whether a text is among others.
pub fn contains_text(texts: &Vec<String>, text: &str) -> (found: bool)
    ensures
        found == views(texts@).contains(text@),
{
    let mut i: usize = 0;
    while i < texts.len()
        invariant
            i <= texts.len(),
            forall|k: int| 0 <= k < i ==> (#[trigger] views(texts@)[k]) != text@,
        decreases texts.len() - i,
    {
        proof {
            assert(views(texts@)[i as int] == texts@[i as int]@);
        }
        if same(texts[i].as_str(), text) {
            return true;
        }
        i += 1;
    }
    false
}

/// Whether a text stands at `i` among others, and not before.
pub open spec fn is_first_text(texts: Seq<Seq<char>>, text: Seq<char>, i: int) -> bool {
    &&& 0 <= i < texts.len()
    &&& texts[i] == text
    &&& forall|k: int| 0 <= k < i ==> #[trigger] texts[k] != text
}

/// Where a text first stands among others.
pub fn first_text(texts: &Vec<String>, text: &str) -> (at: Option<usize>)
    ensures
        match at {
            Some(i) => is_first_text(views(texts@), text@, i as int),
            None => !views(texts@).contains(text@),
        },
{
    let mut i: usize = 0;
    while i < texts.len()
        invariant
            i <= texts.len(),
            forall|k: int| 0 <= k < i ==> #[trigger] views(texts@)[k] != text@,
        decreases texts.len() - i,
    {
        proof {
            assert(views(texts@)[i as int] == texts@[i as int]@);
        }
        if same(texts[i].as_str(), text) {
            return Some(i);
        }
        i += 1;
    }
    None
}

/// What is kept of items is what was among them and passes.
pub proof fn filter_holds<T>(items: Seq<T>, keep: spec_fn(T) -> bool, item: T)
    ensures
        items.filter(keep).contains(item) <==> items.contains(item) && keep(item),
{
    broadcast use vstd::seq_lib::group_filter_ensures;

    if items.filter(keep).contains(item) {
        items.lemma_filter_contains_rev(keep, item);
        let i = choose|i: int| 0 <= i < items.filter(keep).len() && items.filter(keep)[i] == item;
        assert(keep(items.filter(keep)[i]));
    }
    if items.contains(item) && keep(item) {
        let i = choose|i: int| 0 <= i < items.len() && items[i] == item;
        assert(items.filter(keep).contains(items[i]));
    }
}

/// What is kept of items stands in the order of the items: what holds of every two of them, an
/// earlier and a later one, holds of what is kept.
pub proof fn filter_keeps_order<T>(
    items: Seq<T>,
    keep: spec_fn(T) -> bool,
    related: spec_fn(T, T) -> bool,
)
    requires
        forall|i: int, j: int|
            0 <= i < j < items.len() ==> #[trigger] related(items[i], items[j]),
    ensures
        forall|i: int, j: int|
            0 <= i < j < items.filter(keep).len() ==> #[trigger] related(
                items.filter(keep)[i],
                items.filter(keep)[j],
            ),
    decreases items.len(),
{
    reveal(Seq::filter);
    if items.len() > 0 {
        let before = items.drop_last();
        assert forall|i: int, j: int| 0 <= i < j < before.len() implies #[trigger] related(
            before[i],
            before[j],
        ) by {
            assert(related(items[i], items[j]));
        }
        filter_keeps_order(before, keep, related);
        let kept = before.filter(keep);
        assert forall|i: int, j: int| 0 <= i < j < items.filter(keep).len() implies #[trigger] related(
            items.filter(keep)[i],
            items.filter(keep)[j],
        ) by {
            if j < kept.len() {
                assert(related(kept[i], kept[j]));
            } else {
                assert(kept.contains(kept[i]));
                filter_holds(before, keep, kept[i]);
                let k = choose|k: int| 0 <= k < before.len() && before[k] == kept[i];
                assert(related(items[k], items[items.len() - 1]));
            }
        }
    }
}

} // verus!

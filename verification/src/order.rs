//! Stable sorting, as the order in which the positions of a list come out.

use crate::text::code_point;
use crate::lists::views;
use crate::text::chars_of;
use vstd::prelude::*;

verus! {

/// A key that a list can be sorted by. What decides is its rank, and `precedes` is a
/// strict weak order of ranks.
pub trait SortKey: Sized {
    type Rank;

    spec fn rank(&self) -> Self::Rank;

    spec fn precedes(a: Self::Rank, b: Self::Rank) -> bool;

    proof fn asymmetric(a: Self::Rank, b: Self::Rank)
        requires
            Self::precedes(a, b),
        ensures
            !Self::precedes(b, a),
    ;

    proof fn negatively_transitive(a: Self::Rank, b: Self::Rank, c: Self::Rank)
        requires
            Self::precedes(a, b),
            !Self::precedes(c, b),
        ensures
            Self::precedes(a, c),
    ;

    fn comes_before(&self, other: &Self) -> (r: bool)
        ensures
            r == Self::precedes(self.rank(), other.rank()),
    ;
}

/// Two numbers, the first of which decides.
#[derive(Clone, Copy, PartialEq, Eq, Structural, Debug)]
pub struct Pair {
    pub first: i128,
    pub second: i128,
}

impl SortKey for Pair {
    type Rank = (int, int);

    open spec fn rank(&self) -> (int, int) {
        (self.first as int, self.second as int)
    }

    open spec fn precedes(a: (int, int), b: (int, int)) -> bool {
        a.0 < b.0 || (a.0 == b.0 && a.1 < b.1)
    }

    proof fn asymmetric(a: (int, int), b: (int, int)) {
    }

    proof fn negatively_transitive(a: (int, int), b: (int, int), c: (int, int)) {
    }

    fn comes_before(&self, other: &Self) -> (r: bool) {
        self.first < other.first || (self.first == other.first && self.second < other.second)
    }
}

/// Whether text `a` stands before text `b` by the code points of its characters.
pub open spec fn text_precedes(a: Seq<char>, b: Seq<char>) -> bool
    decreases a.len(),
{
    if b.len() == 0 {
        false
    } else if a.len() == 0 {
        true
    } else if a[0] == b[0] {
        text_precedes(a.drop_first(), b.drop_first())
    } else {
        (a[0] as int) < (b[0] as int)
    }
}

pub proof fn text_asymmetric(a: Seq<char>, b: Seq<char>)
    requires
        text_precedes(a, b),
    ensures
        !text_precedes(b, a),
    decreases a.len(),
{
    if a.len() > 0 && b.len() > 0 && a[0] == b[0] {
        text_asymmetric(a.drop_first(), b.drop_first());
    }
}

pub proof fn text_negatively_transitive(a: Seq<char>, b: Seq<char>, c: Seq<char>)
    requires
        text_precedes(a, b),
        !text_precedes(c, b),
    ensures
        text_precedes(a, c),
    decreases a.len(),
{
    if a.len() > 0 && b.len() > 0 && c.len() > 0 {
        if a[0] == b[0] && b[0] == c[0] {
            text_negatively_transitive(a.drop_first(), b.drop_first(), c.drop_first());
        }
    }
}

/// Two texts, of which the first decides; of each text the characters, from the first
/// one on.
pub struct TextPair {
    pub first: Vec<char>,
    pub second: Vec<char>,
}

/// Whether text `a` stands before text `b`.
pub fn text_comes_before(a: &Vec<char>, b: &Vec<char>) -> (r: bool)
    ensures
        r == text_precedes(a@, b@),
{
    let mut i: usize = 0;
    proof {
        assert(a@.skip(0) =~= a@);
        assert(b@.skip(0) =~= b@);
    }
    while i < a.len() && i < b.len() && a[i] == b[i]
        invariant
            i <= a.len(),
            i <= b.len(),
            text_precedes(a@.skip(i as int), b@.skip(i as int)) == text_precedes(a@, b@),
        decreases a.len() - i,
    {
        proof {
            assert(a@.skip(i as int).drop_first() =~= a@.skip(i + 1));
            assert(b@.skip(i as int).drop_first() =~= b@.skip(i + 1));
        }
        i += 1;
    }
    if i == b.len() {
        false
    } else if i == a.len() {
        true
    } else {
        code_point(a[i]) < code_point(b[i])
    }
}

/// Two texts neither of which precedes the other are the same.
pub proof fn text_total(a: Seq<char>, b: Seq<char>)
    requires
        !text_precedes(a, b),
        !text_precedes(b, a),
    ensures
        a == b,
    decreases a.len(),
{
    if a.len() > 0 && b.len() > 0 && a[0] == b[0] {
        text_total(a.drop_first(), b.drop_first());
        assert(a =~= seq![a[0]] + a.drop_first());
        assert(b =~= seq![b[0]] + b.drop_first());
    } else {
        assert(a =~= b);
    }
}

impl SortKey for TextPair {
    type Rank = (Seq<char>, Seq<char>);

    open spec fn rank(&self) -> (Seq<char>, Seq<char>) {
        (self.first@, self.second@)
    }

    open spec fn precedes(a: (Seq<char>, Seq<char>), b: (Seq<char>, Seq<char>)) -> bool {
        text_precedes(a.0, b.0) || (a.0 == b.0 && text_precedes(a.1, b.1))
    }

    proof fn asymmetric(a: (Seq<char>, Seq<char>), b: (Seq<char>, Seq<char>)) {
        if text_precedes(a.0, b.0) {
            text_asymmetric(a.0, b.0);
        } else {
            text_asymmetric(a.1, b.1);
        }
        if a.0 == b.0 && text_precedes(a.0, b.0) {
            text_asymmetric(a.0, a.0);
        }
    }

    proof fn negatively_transitive(
        a: (Seq<char>, Seq<char>),
        b: (Seq<char>, Seq<char>),
        c: (Seq<char>, Seq<char>),
    ) {
        if text_precedes(a.0, b.0) {
            text_negatively_transitive(a.0, b.0, c.0);
        } else {
            if text_precedes(b.0, c.0) {
            } else {
                text_total(b.0, c.0);
                text_negatively_transitive(a.1, b.1, c.1);
            }
        }
    }

    fn comes_before(&self, other: &Self) -> (r: bool) {
        if text_comes_before(&self.first, &other.first) {
            true
        } else if text_comes_before(&other.first, &self.first) {
            proof {
                if self.first@ == other.first@ {
                    text_asymmetric(other.first@, self.first@);
                }
            }
            false
        } else {
            proof {
                text_total(self.first@, other.first@);
            }
            text_comes_before(&self.second, &other.second)
        }
    }
}

/// Whether position `a` comes out before position `b`: by its key, and where the keys
/// do not tell, as it stood.
pub open spec fn comes_first<K: SortKey>(keys: Seq<K::Rank>, a: int, b: int) -> bool {
    K::precedes(keys[a], keys[b]) || (!K::precedes(keys[b], keys[a]) && a < b)
}

/// Whether `order` lists every position of `keys`, each before those it precedes.
pub open spec fn in_order<K: SortKey>(keys: Seq<K::Rank>, order: Seq<int>) -> bool {
    &&& order.len() == keys.len()
    &&& forall|i: int| 0 <= i < order.len() ==> 0 <= #[trigger] order[i] < keys.len()
    &&& forall|v: int| 0 <= v < keys.len() ==> #[trigger] order.contains(v)
    &&& forall|i: int, j: int|
        0 <= i < j < order.len() ==> #[trigger] comes_first::<K>(keys, order[i], order[j])
}

/// The positions of `keys` in sorted order.
pub open spec fn sorted_order<K: SortKey>(keys: Seq<K::Rank>) -> Seq<int> {
    choose|order: Seq<int>| in_order::<K>(keys, order)
}

/// There is one sorted order only.
pub proof fn order_is_unique<K: SortKey>(keys: Seq<K::Rank>, p: Seq<int>, q: Seq<int>)
    requires
        in_order::<K>(keys, p),
        in_order::<K>(keys, q),
    ensures
        p == q,
{
    assert forall|k: int| 0 <= k < p.len() implies p[k] == q[k] by {
        agree_up_to::<K>(keys, p, q, k);
    }
    assert(p =~= q);
}

proof fn agree_up_to<K: SortKey>(keys: Seq<K::Rank>, p: Seq<int>, q: Seq<int>, k: int)
    requires
        in_order::<K>(keys, p),
        in_order::<K>(keys, q),
        0 <= k < p.len(),
    ensures
        forall|i: int| 0 <= i <= k ==> p[i] == q[i],
    decreases k,
{
    if k > 0 {
        agree_up_to::<K>(keys, p, q, k - 1);
    }
    let a = p[k];
    let b = q[k];
    if a != b {
        assert(q.contains(a));
        let i = choose|i: int| 0 <= i < q.len() && q[i] == a;
        if i < k {
            assert(p[i] == q[i]);
            assert(comes_first::<K>(keys, p[i], p[k]));
            self_after_self::<K>(keys, a);
        }
        assert(comes_first::<K>(keys, q[k], q[i]));
        assert(p.contains(b));
        let j = choose|j: int| 0 <= j < p.len() && p[j] == b;
        if j < k {
            assert(p[j] == q[j]);
            assert(comes_first::<K>(keys, q[j], q[k]));
            self_after_self::<K>(keys, b);
        }
        assert(comes_first::<K>(keys, p[k], p[j]));
        first_is_asymmetric::<K>(keys, a, b);
    }
}

proof fn self_after_self<K: SortKey>(keys: Seq<K::Rank>, a: int)
    ensures
        !comes_first::<K>(keys, a, a),
{
    if K::precedes(keys[a], keys[a]) {
        K::asymmetric(keys[a], keys[a]);
    }
}

proof fn first_is_asymmetric<K: SortKey>(keys: Seq<K::Rank>, a: int, b: int)
    requires
        comes_first::<K>(keys, a, b),
    ensures
        !comes_first::<K>(keys, b, a),
{
    if K::precedes(keys[a], keys[b]) {
        K::asymmetric(keys[a], keys[b]);
    } else if K::precedes(keys[b], keys[a]) {
        K::asymmetric(keys[b], keys[a]);
    }
}

/// What the keys are sorted by.
pub open spec fn ranks<K: SortKey>(keys: Seq<K>) -> Seq<K::Rank> {
    keys.map_values(|key: K| key.rank())
}

/// Sorts the positions of `keys`: stable, by insertion.
pub fn sort_order<K: SortKey>(keys: &Vec<K>) -> (order: Vec<usize>)
    ensures
        order.len() == keys.len(),
        in_order::<K>(ranks(keys@), order@.map_values(|i: usize| i as int)),
        order@.map_values(|i: usize| i as int) == sorted_order::<K>(ranks(keys@)),
{
    let ghost all = ranks(keys@);
    let mut order: Vec<usize> = Vec::new();
    let mut n: usize = 0;
    while n < keys.len()
        invariant
            n <= keys.len(),
            all == ranks(keys@),
            in_order::<K>(all.take(n as int), order@.map_values(|i: usize| i as int)),
        decreases keys.len() - n,
    {
        let ghost before = order@.map_values(|i: usize| i as int);
        let ghost prefix = all.take(n as int);
        let mut at: usize = 0;
        proof {
            assert forall|i: int| 0 <= i < order.len() implies #[trigger] order@[i] < n by {
                assert(before[i] == order@[i]);
            }
        }
        while at < order.len() && !keys[n].comes_before(&keys[order[at]])
            invariant
                n < keys.len(),
                all == ranks(keys@),
                at <= order.len(),
                order.len() == n,
                forall|i: int| 0 <= i < order.len() ==> #[trigger] order@[i] < n,
                forall|i: int|
                    0 <= i < at ==> !K::precedes(
                        all[n as int],
                        all[#[trigger] order@[i] as int],
                    ),
            decreases order.len() - at,
        {
            at += 1;
        }
        order.insert(at, n);
        proof {
            let after = order@.map_values(|i: usize| i as int);
            let longer = all.take(n + 1);
            assert(longer.take(n as int) =~= prefix);
            assert(after =~= before.insert(at as int, n as int));
            inserted::<K>(prefix, longer, before, after, n as int, at as int);
        }
        n += 1;
    }
    proof {
        assert(all.take(keys.len() as int) =~= all);
        let found = order@.map_values(|i: usize| i as int);
        order_is_unique::<K>(all, found, sorted_order::<K>(all));
    }
    order
}

/// A text to sort by.
pub struct TextKey {
    pub text: Vec<char>,
}

impl SortKey for TextKey {
    type Rank = Seq<char>;

    open spec fn rank(&self) -> Seq<char> {
        self.text@
    }

    open spec fn precedes(a: Seq<char>, b: Seq<char>) -> bool {
        text_precedes(a, b)
    }

    proof fn asymmetric(a: Seq<char>, b: Seq<char>) {
        text_asymmetric(a, b);
    }

    proof fn negatively_transitive(a: Seq<char>, b: Seq<char>, c: Seq<char>) {
        text_negatively_transitive(a, b, c);
    }

    fn comes_before(&self, other: &Self) -> (r: bool) {
        text_comes_before(&self.text, &other.text)
    }
}

/// Texts in their order.
pub open spec fn sorted_texts(texts: Seq<Seq<char>>) -> Seq<Seq<char>> {
    let order = sorted_order::<TextKey>(texts);
    Seq::new(texts.len(), |k: int| texts[order[k]])
}

/// Sorts texts.
pub fn sort_texts(texts: &Vec<String>) -> (sorted: Vec<String>)
    ensures
        views(sorted@) == sorted_texts(views(texts@)),
{
    let mut keys: Vec<TextKey> = Vec::new();
    let mut i: usize = 0;
    while i < texts.len()
        invariant
            i <= texts.len(),
            keys.len() == i,
            forall|k: int| 0 <= k < i ==> (#[trigger] keys@[k]).text@ == texts@[k]@,
        decreases texts.len() - i,
    {
        keys.push(TextKey { text: chars_of(texts[i].as_str()) });
        i += 1;
    }
    let order = sort_order(&keys);
    let ghost places = order@.map_values(|i: usize| i as int);
    proof {
        assert(ranks(keys@) =~= views(texts@));
    }
    let mut sorted: Vec<String> = Vec::new();
    let mut n: usize = 0;
    while n < order.len()
        invariant
            n <= order.len(),
            order.len() == texts.len(),
            places == order@.map_values(|i: usize| i as int),
            in_order::<TextKey>(views(texts@), places),
            sorted.len() == n,
            forall|k: int|
                0 <= k < n ==> (#[trigger] sorted@[k])@ == views(texts@)[places[k]],
        decreases order.len() - n,
    {
        proof {
            assert(places[n as int] == order@[n as int]);
        }
        sorted.push(texts[order[n]].clone());
        n += 1;
    }
    proof {
        assert(views(sorted@) =~= sorted_texts(views(texts@)));
    }
    sorted
}

/// Every list has a sorted order.
pub proof fn sorted_order_exists<K: SortKey>(keys: Seq<K::Rank>)
    ensures
        in_order::<K>(keys, sorted_order::<K>(keys)),
    decreases keys.len(),
{
    if keys.len() == 0 {
        assert(in_order::<K>(keys, Seq::<int>::empty()));
    } else {
        let n = keys.len() - 1;
        let prefix = keys.take(n);
        sorted_order_exists::<K>(prefix);
        let before = sorted_order::<K>(prefix);
        let at = insertion_point::<K>(keys[n], prefix, before, 0);
        let after = before.insert(at, n);
        assert forall|i: int| 0 <= i < at implies !K::precedes(keys[n], keys[#[trigger] before[i]]) by {
            assert(prefix[before[i]] == keys[before[i]]);
        }
        inserted::<K>(prefix, keys, before, after, n, at);
        assert(in_order::<K>(keys, after));
    }
}

/// The first place from `at` on whose key `key` precedes.
proof fn insertion_point<K: SortKey>(key: K::Rank, keys: Seq<K::Rank>, order: Seq<int>, at: int) -> (found: int)
    requires
        in_order::<K>(keys, order),
        0 <= at <= order.len(),
        forall|i: int| 0 <= i < at ==> !K::precedes(key, keys[#[trigger] order[i]]),
    ensures
        0 <= found <= order.len(),
        forall|i: int| 0 <= i < found ==> !K::precedes(key, keys[#[trigger] order[i]]),
        found < order.len() ==> K::precedes(key, keys[order[found]]),
    decreases order.len() - at,
{
    if at < order.len() && !K::precedes(key, keys[order[at]]) {
        insertion_point::<K>(key, keys, order, at + 1)
    } else {
        at
    }
}

proof fn inserted<K: SortKey>(
    prefix: Seq<K::Rank>,
    keys: Seq<K::Rank>,
    before: Seq<int>,
    after: Seq<int>,
    n: int,
    at: int,
)
    requires
        keys.len() == n + 1,
        prefix == keys.take(n),
        in_order::<K>(prefix, before),
        0 <= at <= n,
        after == before.insert(at, n),
        forall|i: int| 0 <= i < at ==> !K::precedes(keys[n], keys[#[trigger] before[i]]),
        at < n ==> K::precedes(keys[n], keys[before[at]]),
    ensures
        in_order::<K>(keys, after),
{
    assert(forall|i: int| 0 <= i < n ==> prefix[i] == keys[i]);
    assert forall|i: int| 0 <= i < after.len() implies 0 <= #[trigger] after[i] < keys.len() by {
        if i < at {
            assert(after[i] == before[i]);
        } else if i > at {
            assert(after[i] == before[i - 1]);
        }
    }
    assert forall|v: int| 0 <= v < keys.len() implies #[trigger] after.contains(v) by {
        if v == n {
            assert(after[at] == n);
        } else {
            assert(before.contains(v));
            let i = choose|i: int| 0 <= i < before.len() && before[i] == v;
            if i < at {
                assert(after[i] == v);
            } else {
                assert(after[i + 1] == v);
            }
        }
    }
    assert forall|i: int, j: int| 0 <= i < j < after.len() implies #[trigger] comes_first::<K>(
        keys,
        after[i],
        after[j],
    ) by {
        if i == at {
            let q = before[j - 1];
            assert(after[j] == q);
            if j - 1 > at {
                assert(comes_first::<K>(prefix, before[at], before[j - 1]));
                if K::precedes(keys[q], keys[before[at]]) {
                    K::asymmetric(keys[q], keys[before[at]]);
                }
                K::negatively_transitive(keys[n], keys[before[at]], keys[q]);
            }
        } else if j == at {
            assert(after[i] == before[i]);
        } else {
            let a = if i < at {
                i
            } else {
                i - 1
            };
            let b = if j < at {
                j
            } else {
                j - 1
            };
            assert(after[i] == before[a]);
            assert(after[j] == before[b]);
            assert(comes_first::<K>(prefix, before[a], before[b]));
        }
    }
}

} // verus!

//! Sorted, duplicate-free collections.
//!
//! `sorted_list(items)` is what sorting a list and dropping repeated entries
//! leaves; it depends only on which entries occur. `OrderedSet` keeps such a list.
use vstd::prelude::*;

use crate::text;

verus! {

/// A type whose values are totally ordered through their views.
pub trait OrderedKey: View + Sized {
    /// `a` sorts strictly before `b`.
    spec fn key_lt(a: Self::V, b: Self::V) -> bool;

    proof fn key_lt_irreflexive(a: Self::V)
        ensures
            !Self::key_lt(a, a),
    ;

    proof fn key_lt_transitive(a: Self::V, b: Self::V, c: Self::V)
        requires
            Self::key_lt(a, b),
            Self::key_lt(b, c),
        ensures
            Self::key_lt(a, c),
    ;

    proof fn key_lt_total(a: Self::V, b: Self::V)
        ensures
            Self::key_lt(a, b) || a == b || Self::key_lt(b, a),
    ;

    /// Whether `self` sorts strictly before `other`.
    fn key_less(&self, other: &Self) -> (r: bool)
        ensures
            r == Self::key_lt(self@, other@),
    ;

    /// Whether both have the same view.
    fn key_same(&self, other: &Self) -> (r: bool)
        ensures
            r == (self@ == other@),
    ;

    /// A copy with the same view.
    fn key_copy(&self) -> (r: Self)
        ensures
            r@ == self@,
    ;
}

impl OrderedKey for String {
    open spec fn key_lt(a: Seq<char>, b: Seq<char>) -> bool {
        text::text_lt(a, b)
    }

    proof fn key_lt_irreflexive(a: Seq<char>) {
        text::lemma_text_lt_irreflexive(a);
    }

    proof fn key_lt_transitive(a: Seq<char>, b: Seq<char>, c: Seq<char>) {
        text::lemma_text_lt_transitive(a, b, c);
    }

    proof fn key_lt_total(a: Seq<char>, b: Seq<char>) {
        text::lemma_text_lt_total(a, b);
    }

    fn key_less(&self, other: &Self) -> (r: bool) {
        text::text_less(self.as_str(), other.as_str())
    }

    fn key_same(&self, other: &Self) -> (r: bool) {
        text::text_eq(self.as_str(), other.as_str())
    }

    fn key_copy(&self) -> (r: Self) {
        self.clone()
    }
}

/// The views of a sequence of keys.
pub open spec fn views<K: OrderedKey>(items: Seq<K>) -> Seq<K::V> {
    Seq::new(items.len(), |i: int| items[i]@)
}

/// Each key sorts strictly before every later one.
pub open spec fn strictly_sorted<K: OrderedKey>(s: Seq<K::V>) -> bool {
    forall|i: int, j: int| 0 <= i < j < s.len() ==> K::key_lt(#[trigger] s[i], #[trigger] s[j])
}

/// A strictly sorted list with one more key.
pub open spec fn insert_key<K: OrderedKey>(s: Seq<K::V>, x: K::V) -> Seq<K::V>
    decreases s.len(),
{
    if s.len() == 0 {
        seq![x]
    } else if K::key_lt(s.last(), x) {
        s.push(x)
    } else if s.last() == x {
        s
    } else {
        insert_key::<K>(s.drop_last(), x).push(s.last())
    }
}

/// The keys of a list, sorted and without repetition.
pub open spec fn sorted_list<K: OrderedKey>(items: Seq<K::V>) -> Seq<K::V>
    decreases items.len(),
{
    if items.len() == 0 {
        Seq::empty()
    } else {
        insert_key::<K>(sorted_list::<K>(items.drop_last()), items.last())
    }
}

pub proof fn lemma_insert_key<K: OrderedKey>(s: Seq<K::V>, x: K::V)
    requires
        strictly_sorted::<K>(s),
    ensures
        strictly_sorted::<K>(insert_key::<K>(s, x)),
        forall|y: K::V| #[trigger] insert_key::<K>(s, x).contains(y) <==> (s.contains(y) || y == x),
        insert_key::<K>(s, x).len() <= s.len() + 1,
    decreases s.len(),
{
    let r = insert_key::<K>(s, x);
    if s.len() == 0 {
        assert(r[0] == x);
        assert forall|y: K::V| #[trigger] r.contains(y) <==> (s.contains(y) || y == x) by {
            if y == x {
                assert(r[0] == y);
            }
        }
    } else if K::key_lt(s.last(), x) {
        assert forall|i: int, j: int| 0 <= i < j < r.len() implies K::key_lt(
            #[trigger] r[i],
            #[trigger] r[j],
        ) by {
            if j == s.len() {
                if i < s.len() - 1 {
                    K::key_lt_transitive(s[i], s.last(), x);
                }
            }
        }
        assert forall|y: K::V| #[trigger] r.contains(y) <==> (s.contains(y) || y == x) by {
            if s.contains(y) {
                let k = choose|k: int| 0 <= k < s.len() && s[k] == y;
                assert(r[k] == y);
            }
            if y == x {
                assert(r[s.len() as int] == y);
            }
        }
    } else if s.last() == x {
        assert(s[s.len() - 1] == x);
    } else {
        K::key_lt_total(s.last(), x);
        let init = s.drop_last();
        lemma_insert_key::<K>(init, x);
        let t = insert_key::<K>(init, x);
        assert forall|i: int, j: int| 0 <= i < j < r.len() implies K::key_lt(
            #[trigger] r[i],
            #[trigger] r[j],
        ) by {
            if j == t.len() {
                assert(t.contains(t[i]));
                if t[i] != x {
                    let k = choose|k: int| 0 <= k < init.len() && init[k] == t[i];
                    assert(s[k] == t[i]);
                }
            }
        }
        assert forall|y: K::V| #[trigger] r.contains(y) <==> (s.contains(y) || y == x) by {
            if r.contains(y) {
                let k = choose|k: int| 0 <= k < r.len() && r[k] == y;
                if k < t.len() {
                    assert(t[k] == y);
                    assert(t.contains(y));
                    if y != x {
                        let m = choose|m: int| 0 <= m < init.len() && init[m] == y;
                        assert(s[m] == y);
                    }
                } else {
                    assert(s[s.len() - 1] == y);
                }
            }
            if s.contains(y) || y == x {
                if s.contains(y) {
                    let k = choose|k: int| 0 <= k < s.len() && s[k] == y;
                    if k < init.len() {
                        assert(init[k] == y);
                        assert(t.contains(y));
                    } else {
                        assert(r[t.len() as int] == y);
                    }
                }
                if t.contains(y) {
                    let m = choose|m: int| 0 <= m < t.len() && t[m] == y;
                    assert(r[m] == y);
                }
            }
        }
    }
}

/// Sorting keeps exactly the keys that occur, in strictly increasing order.
pub proof fn lemma_sorted_list<K: OrderedKey>(items: Seq<K::V>)
    ensures
        strictly_sorted::<K>(sorted_list::<K>(items)),
        forall|y: K::V| #[trigger] sorted_list::<K>(items).contains(y) <==> items.contains(y),
        sorted_list::<K>(items).len() <= items.len(),
    decreases items.len(),
{
    if items.len() > 0 {
        let init = items.drop_last();
        lemma_sorted_list::<K>(init);
        lemma_insert_key::<K>(sorted_list::<K>(init), items.last());
        assert forall|y: K::V| #[trigger]
            sorted_list::<K>(items).contains(y) <==> items.contains(y) by {
            if items.contains(y) {
                let k = choose|k: int| 0 <= k < items.len() && items[k] == y;
                if k < init.len() {
                    assert(init[k] == y);
                    assert(sorted_list::<K>(init).contains(y));
                }
            }
            if sorted_list::<K>(init).contains(y) {
                let k = choose|k: int| 0 <= k < init.len() && init[k] == y;
                assert(items[k] == y);
            }
            if y == items.last() {
                assert(items[items.len() - 1] == y);
            }
        }
    }
}

proof fn lemma_sorted_same_last<K: OrderedKey>(a: Seq<K::V>, b: Seq<K::V>)
    requires
        strictly_sorted::<K>(a),
        strictly_sorted::<K>(b),
        forall|y: K::V| #[trigger] a.contains(y) <==> b.contains(y),
        a.len() > 0,
        b.len() > 0,
    ensures
        a.last() == b.last(),
{
    assert(a.contains(a.last()));
    assert(b.contains(b.last()));
    assert(a.contains(b.last()));
    let i = choose|i: int| 0 <= i < b.len() && b[i] == a.last();
    let j = choose|j: int| 0 <= j < a.len() && a[j] == b.last();
    if i < b.len() - 1 && j < a.len() - 1 {
        assert(K::key_lt(b[i], b[b.len() - 1]));
        assert(K::key_lt(a[j], a[a.len() - 1]));
        K::key_lt_transitive(a.last(), b.last(), a.last());
        K::key_lt_irreflexive(a.last());
    }
}

/// A strictly sorted list is determined by the set of keys that it holds.
pub proof fn lemma_sorted_unique<K: OrderedKey>(a: Seq<K::V>, b: Seq<K::V>)
    requires
        strictly_sorted::<K>(a),
        strictly_sorted::<K>(b),
        forall|y: K::V| #[trigger] a.contains(y) <==> b.contains(y),
    ensures
        a == b,
    decreases a.len(),
{
    if a.len() == 0 {
        if b.len() > 0 {
            assert(b.contains(b[0]));
            assert(a.contains(b[0]));
        }
        assert(a =~= b);
    } else {
        assert(a.contains(a[0]));
        assert(b.contains(a[0]));
        assert(b.len() > 0);
        lemma_sorted_same_last::<K>(a, b);
        let x = a.last();
        let ai = a.drop_last();
        let bi = b.drop_last();
        assert forall|y: K::V| #[trigger] ai.contains(y) <==> bi.contains(y) by {
            K::key_lt_irreflexive(x);
            if ai.contains(y) {
                let k = choose|k: int| 0 <= k < ai.len() && ai[k] == y;
                assert(a[k] == y);
                assert(K::key_lt(a[k], a[a.len() - 1]));
                assert(a.contains(y));
                let m = choose|m: int| 0 <= m < b.len() && b[m] == y;
                assert(m < bi.len());
                assert(bi[m] == y);
            }
            if bi.contains(y) {
                let k = choose|k: int| 0 <= k < bi.len() && bi[k] == y;
                assert(b[k] == y);
                assert(K::key_lt(b[k], b[b.len() - 1]));
                assert(b.contains(y));
                assert(a.contains(y));
                let m = choose|m: int| 0 <= m < a.len() && a[m] == y;
                assert(m < ai.len());
                assert(ai[m] == y);
            }
        }
        lemma_sorted_unique::<K>(ai, bi);
        assert(a =~= ai.push(x));
        assert(b =~= bi.push(x));
    }
}

/// Sorting does not depend on the order or the repetition of the keys.
pub proof fn law_sorted_list_depends_on_members<K: OrderedKey>(a: Seq<K::V>, b: Seq<K::V>)
    requires
        forall|y: K::V| #[trigger] a.contains(y) <==> b.contains(y),
    ensures
        sorted_list::<K>(a) == sorted_list::<K>(b),
{
    lemma_sorted_list::<K>(a);
    lemma_sorted_list::<K>(b);
    assert forall|y: K::V| #[trigger]
        sorted_list::<K>(a).contains(y) <==> sorted_list::<K>(b).contains(y) by {
        assert(a.contains(y) <==> b.contains(y));
    }
    lemma_sorted_unique::<K>(sorted_list::<K>(a), sorted_list::<K>(b));
}

/// Adds a key to a strictly sorted list.
pub fn insert_sorted<K: OrderedKey>(items: &mut Vec<K>, key: K)
    ensures
        views::<K>(final(items)@) == insert_key::<K>(views::<K>(old(items)@), key@),
{
    let ghost before = views::<K>(items@);
    let mut at: usize = items.len();
    proof {
        assert(before.take(at as int) =~= before);
        assert(insert_key::<K>(before, key@) =~= insert_key::<K>(before.take(at as int), key@)
            + before.skip(at as int));
    }
    while at > 0 && !items[at - 1].key_less(&key)
        invariant
            at <= items@.len(),
            views::<K>(items@) == before,
            *items == *old(items),
            insert_key::<K>(before, key@) == insert_key::<K>(before.take(at as int), key@)
                + before.skip(at as int),
        decreases at,
    {
        let ghost head = before.take(at as int);
        assert(head.last() == items@[at - 1]@);
        if items[at - 1].key_same(&key) {
            proof {
                assert(insert_key::<K>(head, key@) == head);
                assert(head + before.skip(at as int) =~= before);
            }
            return;
        }
        proof {
            assert(head.drop_last() =~= before.take(at - 1));
            assert(insert_key::<K>(head, key@) == insert_key::<K>(before.take(at - 1), key@).push(
                head.last(),
            ));
            assert(insert_key::<K>(before.take(at - 1), key@).push(head.last()) + before.skip(
                at as int,
            ) =~= insert_key::<K>(before.take(at - 1), key@) + before.skip(at - 1));
        }
        at = at - 1;
    }
    proof {
        let head = before.take(at as int);
        if at > 0 {
            assert(head.last() == items@[at - 1]@);
        }
        assert(insert_key::<K>(head, key@) =~= head.push(key@));
        assert(head.push(key@) + before.skip(at as int) =~= before.insert(at as int, key@));
    }
    let ghost added = key@;
    items.insert(at, key);
    assert(views::<K>(items@) =~= before.insert(at as int, added));
}

/// The keys of a list, sorted and without repetition.
pub fn sort_list<K: OrderedKey>(items: &[K]) -> (r: Vec<K>)
    ensures
        views::<K>(r@) == sorted_list::<K>(views::<K>(items@)),
{
    let mut out: Vec<K> = Vec::new();
    assert(views::<K>(out@) =~= sorted_list::<K>(views::<K>(items@).take(0)));
    for i in 0..items.len()
        invariant
            views::<K>(out@) == sorted_list::<K>(views::<K>(items@).take(i as int)),
    {
        let ghost part = views::<K>(items@).take(i + 1);
        insert_sorted(&mut out, items[i].key_copy());
        proof {
            assert(part.drop_last() =~= views::<K>(items@).take(i as int));
            assert(part.last() == items@[i as int]@);
        }
    }
    assert(views::<K>(items@).take(items@.len() as int) =~= views::<K>(items@));
    out
}

/// Whether each key sorts strictly before every later one.
pub fn is_strictly_sorted<K: OrderedKey>(items: &[K]) -> (r: bool)
    ensures
        r == strictly_sorted::<K>(views::<K>(items@)),
{
    let ghost all = views::<K>(items@);
    let mut i: usize = 1;
    while i < items.len()
        invariant
            all == views::<K>(items@),
            1 <= i,
            forall|j: int, k: int|
                0 <= j < k < i && k < all.len() ==> K::key_lt(#[trigger] all[j], #[trigger] all[k]),
        decreases items@.len() - i,
    {
        assert(all[i - 1] == items@[i - 1]@);
        assert(all[i as int] == items@[i as int]@);
        if !items[i - 1].key_less(&items[i]) {
            return false;
        }
        assert forall|j: int, k: int| 0 <= j < k < i + 1 implies K::key_lt(
            #[trigger] all[j],
            #[trigger] all[k],
        ) by {
            if k == i && j < i - 1 {
                K::key_lt_transitive(all[j], all[i - 1], all[i as int]);
            }
        }
        i = i + 1;
    }
    true
}

/// A set of keys, listed in increasing order.
#[derive(Debug, PartialEq, Eq)]
pub struct OrderedSet<K: OrderedKey> {
    items: Vec<K>,
}

impl<K: OrderedKey> View for OrderedSet<K> {
    type V = Set<K::V>;

    /// The keys in the set.
    closed spec fn view(&self) -> Set<K::V> {
        views::<K>(self.items@).to_set()
    }
}

impl<K: OrderedKey> OrderedSet<K> {
    #[verifier::type_invariant]
    spec fn inv(self) -> bool {
        strictly_sorted::<K>(views::<K>(self.items@))
    }

    /// The keys in increasing order.
    pub closed spec fn listed(self) -> Seq<K::V> {
        views::<K>(self.items@)
    }

    /// The empty set.
    pub fn new() -> (r: Self)
        ensures
            r@ == Set::<K::V>::empty(),
    {
        let r = OrderedSet::<K> { items: Vec::new() };
        assert(r@ =~= Set::<K::V>::empty());
        r
    }

    /// Adds a key.
    pub fn insert(&mut self, key: K)
        ensures
            final(self)@ == old(self)@.insert(key@),
    {
        proof {
            use_type_invariant(&*self);
            lemma_insert_key::<K>(views::<K>(self.items@), key@);
        }
        let ghost before = views::<K>(self.items@);
        let ghost added = key@;
        let mut items: Vec<K> = Vec::new();
        std::mem::swap(&mut items, &mut self.items);
        insert_sorted(&mut items, key);
        let ghost after = views::<K>(items@);
        self.items = items;
        proof {
            assert forall|y: K::V| after.to_set().contains(y) <==> before.to_set().insert(
                added,
            ).contains(y) by {
                assert(insert_key::<K>(before, added).contains(y) <==> (before.contains(y) || y
                    == added));
            }
            assert(self@ =~= old(self)@.insert(added));
        }
    }

    /// Whether the set holds a key.
    pub fn contains(&self, key: &K) -> (r: bool)
        ensures
            r == self@.contains(key@),
    {
        for i in 0..self.items.len()
            invariant
                forall|j: int| 0 <= j < i ==> self.items@[j]@ != key@,
        {
            if self.items[i].key_same(key) {
                assert(views::<K>(self.items@)[i as int] == key@);
                return true;
            }
        }
        proof {
            let s = views::<K>(self.items@);
            if s.contains(key@) {
                let k = choose|k: int| 0 <= k < s.len() && s[k] == key@;
                assert(self.items@[k]@ == key@);
            }
        }
        false
    }

    /// The number of keys.
    pub fn len(&self) -> (r: usize)
        ensures
            self@.finite(),
            r == self@.len(),
            r == self.listed().len(),
    {
        proof {
            use_type_invariant(self);
            let s = views::<K>(self.items@);
            assert forall|i: int, j: int| 0 <= i < s.len() && 0 <= j < s.len() && i != j implies s[i]
                != s[j] by {
                if i < j {
                    assert(K::key_lt(s[i], s[j]));
                    K::key_lt_irreflexive(s[i]);
                } else {
                    assert(K::key_lt(s[j], s[i]));
                    K::key_lt_irreflexive(s[i]);
                }
            }
            s.unique_seq_to_set();
        }
        self.items.len()
    }

    /// The keys of the set in strictly increasing order.
    pub fn as_list(&self) -> (r: &Vec<K>)
        ensures
            views::<K>(r@) == self.listed(),
            strictly_sorted::<K>(self.listed()),
            self@ == self.listed().to_set(),
    {
        proof {
            use_type_invariant(self);
        }
        &self.items
    }
}

/// A type whose values can be ranked through their views. Values that rank alike
/// may differ.
pub trait Ranked: View + Sized {
    /// `a` ranks strictly ahead of `b`.
    spec fn ahead(a: Self::V, b: Self::V) -> bool;

    proof fn ahead_asymmetric(a: Self::V, b: Self::V)
        requires
            Self::ahead(a, b),
        ensures
            !Self::ahead(b, a),
    ;

    /// Not being overtaken is transitive.
    proof fn ahead_connected(a: Self::V, b: Self::V, c: Self::V)
        requires
            !Self::ahead(b, a),
            !Self::ahead(c, b),
        ensures
            !Self::ahead(c, a),
    ;

    /// Whether `self` ranks strictly ahead of `other`.
    fn ranks_ahead(&self, other: &Self) -> (r: bool)
        ensures
            r == Self::ahead(self@, other@),
    ;
}

impl Ranked for String {
    open spec fn ahead(a: Seq<char>, b: Seq<char>) -> bool {
        text::text_lt(a, b)
    }

    proof fn ahead_asymmetric(a: Seq<char>, b: Seq<char>) {
        if text::text_lt(b, a) {
            text::lemma_text_lt_transitive(a, b, a);
            text::lemma_text_lt_irreflexive(a);
        }
    }

    proof fn ahead_connected(a: Seq<char>, b: Seq<char>, c: Seq<char>) {
        if text::text_lt(c, a) {
            text::lemma_text_lt_total(a, b);
            if text::text_lt(a, b) {
                text::lemma_text_lt_transitive(c, a, b);
            }
        }
    }

    fn ranks_ahead(&self, other: &Self) -> (r: bool) {
        text::text_less(self.as_str(), other.as_str())
    }
}

/// The views of a sequence of ranked values.
pub open spec fn rank_views<K: Ranked>(items: Seq<K>) -> Seq<K::V> {
    Seq::new(items.len(), |i: int| items[i]@)
}

/// A ranked list with one more value, behind all that it does not overtake.
pub open spec fn insert_ranked<K: Ranked>(s: Seq<K::V>, x: K::V) -> Seq<K::V>
    decreases s.len(),
{
    if s.len() > 0 && K::ahead(x, s.last()) {
        insert_ranked::<K>(s.drop_last(), x).push(s.last())
    } else {
        s.push(x)
    }
}

/// The values of a list by rank; values that rank alike keep their order.
pub open spec fn ranked_list<K: Ranked>(items: Seq<K::V>) -> Seq<K::V>
    decreases items.len(),
{
    if items.len() == 0 {
        Seq::empty()
    } else {
        insert_ranked::<K>(ranked_list::<K>(items.drop_last()), items.last())
    }
}

/// No value overtakes an earlier one.
pub open spec fn in_rank_order<K: Ranked>(s: Seq<K::V>) -> bool {
    forall|i: int, j: int| 0 <= i < j < s.len() ==> !K::ahead(#[trigger] s[j], #[trigger] s[i])
}

proof fn lemma_insert_ranked<K: Ranked>(s: Seq<K::V>, x: K::V)
    requires
        in_rank_order::<K>(s),
    ensures
        in_rank_order::<K>(insert_ranked::<K>(s, x)),
        insert_ranked::<K>(s, x).len() == s.len() + 1,
        insert_ranked::<K>(s, x).to_multiset() == s.to_multiset().insert(x),
    decreases s.len(),
{
    broadcast use vstd::seq_lib::group_to_multiset_ensures;

    let r = insert_ranked::<K>(s, x);
    if s.len() > 0 && K::ahead(x, s.last()) {
        let init = s.drop_last();
        lemma_insert_ranked::<K>(init, x);
        let t = insert_ranked::<K>(init, x);
        assert(r == t.push(s.last()));
        assert(s =~= init.push(s.last()));
        assert(r.to_multiset() =~= s.to_multiset().insert(x));
        assert forall|i: int, j: int| 0 <= i < j < r.len() implies !K::ahead(
            #[trigger] r[j],
            #[trigger] r[i],
        ) by {
            if j == t.len() {
                assert(t.to_multiset().contains(t[i]));
                K::ahead_asymmetric(x, s.last());
                if t[i] != x {
                    assert(init.to_multiset().contains(t[i]));
                    let k = choose|k: int| 0 <= k < init.len() && init[k] == t[i];
                    assert(s[k] == t[i]);
                    assert(!K::ahead(s[s.len() - 1], s[k]));
                }
            }
        }
    } else {
        assert forall|i: int, j: int| 0 <= i < j < r.len() implies !K::ahead(
            #[trigger] r[j],
            #[trigger] r[i],
        ) by {
            if j == s.len() && i < s.len() - 1 {
                assert(!K::ahead(s[s.len() - 1], s[i]));
                K::ahead_connected(s[i], s.last(), x);
            }
        }
    }
}

/// Ranking keeps exactly the values of the list and puts them in rank order.
pub proof fn law_ranking_sorts<K: Ranked>(items: Seq<K::V>)
    ensures
        in_rank_order::<K>(ranked_list::<K>(items)),
        ranked_list::<K>(items).len() == items.len(),
        ranked_list::<K>(items).to_multiset() == items.to_multiset(),
    decreases items.len(),
{
    broadcast use vstd::seq_lib::group_to_multiset_ensures;

    if items.len() > 0 {
        let init = items.drop_last();
        law_ranking_sorts::<K>(init);
        lemma_insert_ranked::<K>(ranked_list::<K>(init), items.last());
        assert(items =~= init.push(items.last()));
    } else {
        assert(ranked_list::<K>(items) =~= items);
    }
}

/// Adds a value to a ranked list, behind all that it does not overtake.
pub fn add_ranked<K: Ranked>(items: &mut Vec<K>, item: K)
    ensures
        rank_views::<K>(final(items)@) == insert_ranked::<K>(rank_views::<K>(old(items)@), item@),
{
    let ghost before = rank_views::<K>(items@);
    let mut at: usize = items.len();
    proof {
        assert(before.take(at as int) =~= before);
        assert(insert_ranked::<K>(before, item@) =~= insert_ranked::<K>(
            before.take(at as int),
            item@,
        ) + before.skip(at as int));
    }
    while at > 0 && item.ranks_ahead(&items[at - 1])
        invariant
            at <= items@.len(),
            rank_views::<K>(items@) == before,
            *items == *old(items),
            insert_ranked::<K>(before, item@) == insert_ranked::<K>(before.take(at as int), item@)
                + before.skip(at as int),
        decreases at,
    {
        proof {
            let head = before.take(at as int);
            assert(head.last() == items@[at - 1]@);
            assert(head.drop_last() =~= before.take(at - 1));
            assert(insert_ranked::<K>(head, item@) == insert_ranked::<K>(
                before.take(at - 1),
                item@,
            ).push(head.last()));
            assert(insert_ranked::<K>(before.take(at - 1), item@).push(head.last()) + before.skip(
                at as int,
            ) =~= insert_ranked::<K>(before.take(at - 1), item@) + before.skip(at - 1));
        }
        at = at - 1;
    }
    proof {
        let head = before.take(at as int);
        if at > 0 {
            assert(head.last() == items@[at - 1]@);
        }
        assert(insert_ranked::<K>(head, item@) =~= head.push(item@));
        assert(head.push(item@) + before.skip(at as int) =~= before.insert(at as int, item@));
    }
    let ghost added = item@;
    items.insert(at, item);
    assert(rank_views::<K>(items@) =~= before.insert(at as int, added));
}

/// The values of a list by rank; values that rank alike keep their order.
pub fn rank_list<K: Ranked>(items: Vec<K>) -> (r: Vec<K>)
    ensures
        rank_views::<K>(r@) == ranked_list::<K>(rank_views::<K>(items@)),
{
    let ghost all = rank_views::<K>(items@);
    let mut rest = items;
    let mut reversed: Vec<K> = Vec::new();
    while rest.len() > 0
        invariant
            all.len() == rest@.len() + reversed@.len(),
            forall|i: int| 0 <= i < rest@.len() ==> rest@[i]@ == all[i],
            forall|i: int|
                0 <= i < reversed@.len() ==> (#[trigger] reversed@[i])@ == all[all.len() - 1 - i],
        decreases rest@.len(),
    {
        if let Some(item) = rest.pop() {
            reversed.push(item);
        }
    }
    let mut out: Vec<K> = Vec::new();
    assert(rank_views::<K>(out@) =~= ranked_list::<K>(all.take(0)));
    while reversed.len() > 0
        invariant
            reversed@.len() <= all.len(),
            forall|i: int|
                0 <= i < reversed@.len() ==> (#[trigger] reversed@[i])@ == all[all.len() - 1 - i],
            rank_views::<K>(out@) == ranked_list::<K>(all.take(all.len() - reversed@.len())),
        decreases reversed@.len(),
    {
        let ghost done = all.len() - reversed@.len();
        if let Some(item) = reversed.pop() {
            proof {
                assert(item@ == all[done]);
                assert(all.take(done + 1).drop_last() =~= all.take(done));
                assert(all.take(done + 1).last() == all[done]);
            }
            add_ranked(&mut out, item);
        }
    }
    assert(all.take(all.len() as int) =~= all);
    out
}

} // verus!

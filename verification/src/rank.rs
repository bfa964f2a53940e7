//! Orders on texts and records, and a stable sort by them.

use std::cmp::Ordering;
use vstd::prelude::*;

verus! {

broadcast use vstd::string::group_string_axioms;

// ---------------------------------------------------------------------------
// The order of texts
// ---------------------------------------------------------------------------

/// How `a` stands to `b` in the order of texts: by their first different character, a text
/// before its own continuations.
pub open spec fn text_order(a: Seq<char>, b: Seq<char>) -> Ordering
    decreases a.len(),
{
    if a.len() == 0 {
        if b.len() == 0 {
            Ordering::Equal
        } else {
            Ordering::Less
        }
    } else if b.len() == 0 {
        Ordering::Greater
    } else if a[0] < b[0] {
        Ordering::Less
    } else if a[0] > b[0] {
        Ordering::Greater
    } else {
        text_order(a.skip(1), b.skip(1))
    }
}

/// Two texts tie only where they are the same.
pub proof fn lemma_text_order_equal(a: Seq<char>, b: Seq<char>)
    ensures
        text_order(a, b) == Ordering::Equal <==> a == b,
    decreases a.len(),
{
    if a.len() > 0 && b.len() > 0 {
        lemma_text_order_equal(a.skip(1), b.skip(1));
        assert(a =~= seq![a[0]] + a.skip(1));
        assert(b =~= seq![b[0]] + b.skip(1));
        if a == b {
            assert(a.skip(1) == b.skip(1));
        } else if a[0] == b[0] && a.skip(1) == b.skip(1) {
            assert(a == b);
        }
    } else {
        assert(a.len() == 0 && b.len() == 0 ==> a =~= b);
    }
}

/// The order of texts read from the other side.
pub proof fn lemma_text_order_flips(a: Seq<char>, b: Seq<char>)
    ensures
        text_order(a, b) == Ordering::Less <==> text_order(b, a) == Ordering::Greater,
        text_order(a, b) == Ordering::Equal <==> text_order(b, a) == Ordering::Equal,
    decreases a.len(),
{
    if a.len() > 0 && b.len() > 0 {
        lemma_text_order_flips(a.skip(1), b.skip(1));
    }
}

/// The order of texts is transitive.
pub proof fn lemma_text_order_transitive(a: Seq<char>, b: Seq<char>, c: Seq<char>)
    requires
        text_order(a, b) == Ordering::Less,
        text_order(b, c) == Ordering::Less,
    ensures
        text_order(a, c) == Ordering::Less,
    decreases a.len(),
{
    if a.len() > 0 && b.len() > 0 && c.len() > 0 && a[0] == b[0] && b[0] == c[0] {
        lemma_text_order_transitive(a.skip(1), b.skip(1), c.skip(1));
    }
}

/// How `a` stands to `b` in the order of texts.
pub fn compare_text(a: &str, b: &str) -> (r: Ordering)
    ensures
        r == text_order(a@, b@),
{
    let mut x = a.chars();
    let mut y = b.chars();
    let ghost mut n: int = 0;
    assert(a@ == a@.skip(0));
    assert(b@ == b@.skip(0));
    loop
        invariant
            0 <= n <= a@.len(),
            n <= b@.len(),
            text_order(a@, b@) == text_order(a@.skip(n), b@.skip(n)),
            vstd::std_specs::iter::IteratorSpec::remaining(&x) == a@.skip(n),
            vstd::std_specs::iter::IteratorSpec::remaining(&y) == b@.skip(n),
        decreases a@.len() - n,
    {
        match (x.next(), y.next()) {
            (Some(c), Some(d)) => {
                if c < d {
                    return Ordering::Less;
                }
                if d < c {
                    return Ordering::Greater;
                }
                proof {
                    assert(a@.skip(n).skip(1) =~= a@.skip(n + 1));
                    assert(b@.skip(n).skip(1) =~= b@.skip(n + 1));
                    n = n + 1;
                }
            },
            (None, None) => {
                return Ordering::Equal;
            },
            (None, Some(_)) => {
                return Ordering::Less;
            },
            (Some(_), None) => {
                return Ordering::Greater;
            },
        }
    }
}

/// Whether `a` comes before `b` in the order of texts.
pub open spec fn text_before(a: Seq<char>, b: Seq<char>) -> bool {
    text_order(a, b) == Ordering::Less
}

/// Two different texts stand in exactly one order, and the order is transitive.
pub proof fn lemma_text_before(a: Seq<char>, b: Seq<char>, c: Seq<char>)
    ensures
        !text_before(a, a),
        text_before(a, b) ==> !text_before(b, a),
        a != b ==> text_before(a, b) || text_before(b, a),
        text_before(a, b) && text_before(b, c) ==> text_before(a, c),
{
    lemma_text_order_equal(a, a);
    lemma_text_order_equal(a, b);
    lemma_text_order_flips(a, b);
    if text_before(a, b) && text_before(b, c) {
        lemma_text_order_transitive(a, b, c);
    }
}

/// Whether `a` comes before `b` in the order of texts.
pub fn is_before(a: &str, b: &str) -> (r: bool)
    ensures
        r == text_before(a@, b@),
{
    match compare_text(a, b) {
        Ordering::Less => true,
        _ => false,
    }
}

// ---------------------------------------------------------------------------
// Stable sorting
// ---------------------------------------------------------------------------

/// Records with a place in a total preorder: two records may tie.
pub trait Ranked: View + Sized {
    /// Whether `a` comes before `b` or ties with it.
    spec fn no_later(a: Self::V, b: Self::V) -> bool;

    /// Any two records can be compared.
    proof fn lemma_total(a: Self::V, b: Self::V)
        ensures
            Self::no_later(a, b) || Self::no_later(b, a),
    ;

    /// The preorder is transitive.
    proof fn lemma_transitive(a: Self::V, b: Self::V, c: Self::V)
        requires
            Self::no_later(a, b),
            Self::no_later(b, c),
        ensures
            Self::no_later(a, c),
    ;

    /// Whether `self` comes before `other` or ties with it.
    fn is_no_later(&self, other: &Self) -> (r: bool)
        ensures
            r == Self::no_later(self@, other@),
    ;
}

/// What the records of a sequence stand for.
pub open spec fn views<T: View>(s: Seq<T>) -> Seq<T::V> {
    s.map_values(|x: T| x@)
}

/// `s` with `x` at its end, if there is one.
pub open spec fn push_some<A>(s: Seq<A>, x: Option<A>) -> Seq<A> {
    match x {
        Some(x) => s.push(x),
        None => s,
    }
}

/// `s` with `x` put behind the last record that does not come after it.
pub open spec fn inserted<T: Ranked>(s: Seq<T::V>, x: T::V) -> Seq<T::V>
    decreases s.len(),
{
    if s.len() == 0 {
        seq![x]
    } else if T::no_later(s.last(), x) {
        s.push(x)
    } else {
        inserted::<T>(s.drop_last(), x).push(s.last())
    }
}

/// `s` in order, with records that tie left in the order in which they stand in `s`.
pub open spec fn ranked<T: Ranked>(s: Seq<T::V>) -> Seq<T::V>
    decreases s.len(),
{
    if s.len() == 0 {
        s
    } else {
        inserted::<T>(ranked::<T>(s.drop_last()), s.last())
    }
}

/// Whether `s` is in order.
pub open spec fn in_order<T: Ranked>(s: Seq<T::V>) -> bool {
    forall|i: int, j: int| 0 <= i <= j < s.len() ==> T::no_later(#[trigger] s[i], #[trigger] s[j])
}

/// Whether `a` and `b` tie.
pub open spec fn ties<T: Ranked>(a: T::V, b: T::V) -> bool {
    T::no_later(a, b) && T::no_later(b, a)
}

/// The records of `s` that tie with `x`, in the order in which they stand in `s`.
pub open spec fn tied_with<T: Ranked>(s: Seq<T::V>, x: T::V) -> Seq<T::V> {
    s.filter(|y: T::V| ties::<T>(x, y))
}

/// `a` and `b` merged from behind; records of `a` go before records of `b` that they tie with.
spec fn merged<T: Ranked>(a: Seq<T::V>, b: Seq<T::V>) -> Seq<T::V>
    decreases a.len() + b.len(),
{
    if a.len() == 0 {
        b
    } else if b.len() == 0 {
        a
    } else if T::no_later(a.last(), b.last()) {
        merged::<T>(a, b.drop_last()).push(b.last())
    } else {
        merged::<T>(a.drop_last(), b).push(a.last())
    }
}

proof fn lemma_inserted_ends<T: Ranked>(s: Seq<T::V>, x: T::V)
    ensures
        inserted::<T>(s, x).len() == s.len() + 1,
        inserted::<T>(s, x).last() == (if s.len() == 0 || T::no_later(s.last(), x) {
            x
        } else {
            s.last()
        }),
    decreases s.len(),
{
    if s.len() > 0 && !T::no_later(s.last(), x) {
        lemma_inserted_ends::<T>(s.drop_last(), x);
    }
}

proof fn lemma_insert_into_merged<T: Ranked>(a: Seq<T::V>, b: Seq<T::V>, x: T::V)
    ensures
        inserted::<T>(merged::<T>(a, b), x) == merged::<T>(a, inserted::<T>(b, x)),
    decreases a.len() + b.len(),
{
    let m = merged::<T>(a, b);
    let bx = inserted::<T>(b, x);
    lemma_inserted_ends::<T>(b, x);
    if a.len() == 0 {
    } else if b.len() == 0 {
        assert(bx =~= seq![x]);
        if T::no_later(a.last(), x) {
            assert(bx.drop_last() =~= b);
            assert(merged::<T>(a, bx) =~= a.push(x));
        } else {
            lemma_insert_into_merged::<T>(a.drop_last(), b, x);
            assert(merged::<T>(a.drop_last(), b) =~= a.drop_last());
        }
    } else if T::no_later(a.last(), b.last()) {
        assert(m.drop_last() =~= merged::<T>(a, b.drop_last()));
        if T::no_later(b.last(), x) {
            T::lemma_transitive(a.last(), b.last(), x);
            assert(bx.drop_last() =~= b);
        } else {
            lemma_insert_into_merged::<T>(a, b.drop_last(), x);
            assert(bx.drop_last() =~= inserted::<T>(b.drop_last(), x));
        }
    } else {
        T::lemma_total(a.last(), b.last());
        assert(m.drop_last() =~= merged::<T>(a.drop_last(), b));
        if T::no_later(a.last(), x) {
            T::lemma_transitive(b.last(), a.last(), x);
            assert(bx.drop_last() =~= b);
        } else {
            lemma_insert_into_merged::<T>(a.drop_last(), b, x);
        }
    }
}

proof fn lemma_ranked_concat<T: Ranked>(a: Seq<T::V>, b: Seq<T::V>)
    ensures
        ranked::<T>(a + b) == merged::<T>(ranked::<T>(a), ranked::<T>(b)),
    decreases b.len(),
{
    if b.len() == 0 {
        assert(a + b =~= a);
        if ranked::<T>(a).len() == 0 {
            assert(ranked::<T>(a) =~= b);
        }
    } else {
        assert((a + b).drop_last() =~= a + b.drop_last());
        lemma_ranked_concat::<T>(a, b.drop_last());
        lemma_insert_into_merged::<T>(ranked::<T>(a), ranked::<T>(b.drop_last()), b.last());
    }
}

proof fn lemma_inserted<T: Ranked>(s: Seq<T::V>, x: T::V)
    requires
        in_order::<T>(s),
    ensures
        in_order::<T>(inserted::<T>(s, x)),
        inserted::<T>(s, x).to_multiset() == s.to_multiset().insert(x),
        forall|y: T::V| #[trigger]
            tied_with::<T>(inserted::<T>(s, x), y) == tied_with::<T>(s.push(x), y),
    decreases s.len(),
{
    broadcast use vstd::seq_lib::group_to_multiset_ensures;

    T::lemma_total(x, x);
    if s.len() == 0 {
        assert(seq![x] =~= s.push(x));
    } else if T::no_later(s.last(), x) {
        let r = s.push(x);
        assert forall|i: int, j: int| 0 <= i <= j < r.len() implies T::no_later(
            #[trigger] r[i],
            #[trigger] r[j],
        ) by {
            if i < s.len() && j == s.len() {
                assert(T::no_later(s[i], s[s.len() - 1]));
                T::lemma_transitive(s[i], s.last(), x);
            }
        }
    } else {
        let last = s.last();
        let front = s.drop_last();
        T::lemma_total(last, x);
        assert(in_order::<T>(front));
        lemma_inserted::<T>(front, x);
        let fx = inserted::<T>(front, x);
        let r = fx.push(last);
        assert(s =~= front.push(last));
        assert(r.to_multiset() =~= s.to_multiset().insert(x));
        assert forall|i: int, j: int| 0 <= i <= j < r.len() implies T::no_later(
            #[trigger] r[i],
            #[trigger] r[j],
        ) by {
            if j == fx.len() {
                if i < fx.len() {
                    assert(fx.to_multiset().count(fx[i]) > 0);
                    if fx[i] == x {
                    } else {
                        assert(front.to_multiset().count(fx[i]) > 0);
                        assert(front.contains(fx[i]));
                        let k = front.index_of(fx[i]);
                        assert(T::no_later(s[k], s[s.len() - 1]));
                    }
                } else {
                    T::lemma_total(last, last);
                }
            } else {
                assert(T::no_later(fx[i], fx[j]));
            }
        }
        assert forall|y: T::V| #[trigger]
            tied_with::<T>(inserted::<T>(s, x), y) == tied_with::<T>(s.push(x), y) by {
            let p = |z: T::V| ties::<T>(y, z);
            assert(tied_with::<T>(fx, y) == tied_with::<T>(front.push(x), y));
            lemma_filter_push(fx, last, p);
            lemma_filter_push(front, x, p);
            lemma_filter_push(s, x, p);
            lemma_filter_push(front, last, p);
            if p(x) && p(last) {
                T::lemma_transitive(last, y, x);
            }
        }
    }
}

/// A filter of a sequence with one more record.
pub proof fn lemma_filter_push<A>(s: Seq<A>, x: A, p: spec_fn(A) -> bool)
    ensures
        s.push(x).filter(p) == (if p(x) {
            s.filter(p).push(x)
        } else {
            s.filter(p)
        }),
{
    reveal(Seq::filter);
    assert(s.push(x).drop_last() =~= s);
}

/// Sorting puts the records in order, keeps each of them, and leaves records that tie in the
/// order in which they stood.
pub proof fn law_ranked<T: Ranked>(s: Seq<T::V>)
    ensures
        in_order::<T>(ranked::<T>(s)),
        ranked::<T>(s).to_multiset() == s.to_multiset(),
        ranked::<T>(s).len() == s.len(),
        forall|y: T::V| #[trigger] tied_with::<T>(ranked::<T>(s), y) == tied_with::<T>(s, y),
    decreases s.len(),
{
    broadcast use vstd::seq_lib::group_to_multiset_ensures;

    if s.len() > 0 {
        let front = ranked::<T>(s.drop_last());
        law_ranked::<T>(s.drop_last());
        lemma_inserted::<T>(front, s.last());
        lemma_inserted_ends::<T>(front, s.last());
        assert(s =~= s.drop_last().push(s.last()));
        assert forall|y: T::V| #[trigger]
            tied_with::<T>(ranked::<T>(s), y) == tied_with::<T>(s, y) by {
            let p = |z: T::V| ties::<T>(y, z);
            assert(tied_with::<T>(inserted::<T>(front, s.last()), y) == tied_with::<T>(
                front.push(s.last()),
                y,
            ));
            assert(tied_with::<T>(front, y) == tied_with::<T>(s.drop_last(), y));
            lemma_filter_push(front, s.last(), p);
            lemma_filter_push(s.drop_last(), s.last(), p);
        }
    }
}

fn merge<T: Ranked>(a: Vec<T>, b: Vec<T>) -> (r: Vec<T>)
    ensures
        views(r@) == merged::<T>(views(a@), views(b@)),
{
    let mut left = a;
    let mut right = b;
    let mut tail: Vec<T> = Vec::new();
    let ghost whole = merged::<T>(views(a@), views(b@));
    assert(views(tail@).reverse() =~= Seq::empty());
    assert(whole =~= merged::<T>(views(left@), views(right@)) + views(tail@).reverse());
    while left.len() > 0 && right.len() > 0
        invariant
            whole == merged::<T>(views(left@), views(right@)) + views(tail@).reverse(),
        decreases left@.len() + right@.len(),
    {
        let i = left.len() - 1;
        let j = right.len() - 1;
        let ghost l0 = left@;
        let ghost r0 = right@;
        let ghost t0 = tail@;
        if left[i].is_no_later(&right[j]) {
            if let Some(x) = right.pop() {
                tail.push(x);
                proof {
                    assert(views(right@) =~= views(r0).drop_last());
                    assert(views(tail@).reverse() =~= seq![x@] + views(t0).reverse());
                    assert(whole =~= merged::<T>(views(left@), views(right@))
                        + views(tail@).reverse());
                }
            }
        } else {
            if let Some(x) = left.pop() {
                tail.push(x);
                proof {
                    assert(views(left@) =~= views(l0).drop_last());
                    assert(views(tail@).reverse() =~= seq![x@] + views(t0).reverse());
                    assert(whole =~= merged::<T>(views(left@), views(right@))
                        + views(tail@).reverse());
                }
            }
        }
    }
    let mut out = if left.len() > 0 {
        left
    } else {
        right
    };
    assert(whole == views(out@) + views(tail@).reverse());
    while tail.len() > 0
        invariant
            whole == views(out@) + views(tail@).reverse(),
        decreases tail@.len(),
    {
        let ghost t0 = tail@;
        let ghost o0 = out@;
        if let Some(x) = tail.pop() {
            out.push(x);
            proof {
                assert(views(out@) =~= views(o0).push(x@));
                assert(views(t0).reverse() =~= seq![x@] + views(tail@).reverse());
                assert(whole =~= views(out@) + views(tail@).reverse());
            }
        }
    }
    assert(views(tail@).reverse() =~= Seq::empty());
    assert(views(out@) =~= whole);
    out
}

/// Sorts `items`, leaving records that tie in the order in which they stand.
pub fn stable_sort<T: Ranked>(items: Vec<T>) -> (r: Vec<T>)
    ensures
        views(r@) == ranked::<T>(views(items@)),
    decreases items@.len(),
{
    let mut left = items;
    if left.len() < 2 {
        proof {
            let s = views(left@);
            if s.len() == 1 {
                assert(s.drop_last() =~= Seq::empty());
                assert(ranked::<T>(s.drop_last()) =~= Seq::empty());
                assert(ranked::<T>(s) =~= s);
            }
        }
        return left;
    }
    let mid = left.len() / 2;
    let right = left.split_off(mid);
    proof {
        assert(views(items@) =~= views(left@) + views(right@));
        lemma_ranked_concat::<T>(views(left@), views(right@));
    }
    let a = stable_sort(left);
    let b = stable_sort(right);
    merge(a, b)
}

impl Ranked for String {
    open spec fn no_later(a: Seq<char>, b: Seq<char>) -> bool {
        text_order(a, b) != Ordering::Greater
    }

    proof fn lemma_total(a: Seq<char>, b: Seq<char>) {
        lemma_text_order_flips(a, b);
    }

    proof fn lemma_transitive(a: Seq<char>, b: Seq<char>, c: Seq<char>) {
        lemma_text_order_equal(a, b);
        lemma_text_order_equal(b, c);
        if text_order(a, b) == Ordering::Less && text_order(b, c) == Ordering::Less {
            lemma_text_order_transitive(a, b, c);
        }
    }

    fn is_no_later(&self, other: &Self) -> (r: bool) {
        match compare_text(self.as_str(), other.as_str()) {
            Ordering::Greater => false,
            _ => true,
        }
    }
}

} // verus!

//! A total preorder on record identities, a verified insertion sort, and
//! searches over sorted sequences.

use vstd::prelude::*;

verus! {

/// A type with a total preorder, used to keep record-identity lists sorted
/// and to search them.
pub trait Ordered: Sized {
    /// The order: `a.le(b)` says that `a` sorts no later than `b`.
    spec fn le(self, other: Self) -> bool;

    /// The order is total.
    proof fn lemma_le_total(a: Self, b: Self)
        ensures
            a.le(b) || b.le(a),
    ;

    /// The order is transitive.
    proof fn lemma_le_trans(a: Self, b: Self, c: Self)
        requires
            a.le(b),
            b.le(c),
        ensures
            a.le(c),
    ;

    /// Decides the order.
    fn le_exec(&self, other: &Self) -> (r: bool)
        ensures
            r == self.le(*other),
    ;
}

/// Two values that the order treats as equal.
pub open spec fn eq_under<T: Ordered>(a: T, b: T) -> bool {
    a.le(b) && b.le(a)
}

/// The sequence is sorted ascending under the order.
pub open spec fn sorted<T: Ordered>(s: Seq<T>) -> bool {
    forall|i: int, j: int| 0 <= i < j < s.len() ==> #[trigger] s[i].le(s[j])
}

/// The order of an `Ordered` type, as a function value, so that every use
/// names the same function.
pub open spec fn le_fn<T: Ordered>() -> spec_fn(T, T) -> bool {
    |a: T, b: T| a.le(b)
}

/// Where the insertion sort places `x` in `s` under the order `leq`: just
/// before the first element that `x` sorts no later than.
pub open spec fn insert_sorted_by<T>(s: Seq<T>, x: T, leq: spec_fn(T, T) -> bool) -> Seq<T>
    decreases s.len(),
{
    if s.len() == 0 {
        seq![x]
    } else if leq(x, s[0]) {
        seq![x] + s
    } else {
        seq![s[0]] + insert_sorted_by(s.skip(1), x, leq)
    }
}

/// The insertion sort of `s` under the order `leq`: every element inserted
/// in turn, in order.
pub open spec fn sort_by_insertion<T>(s: Seq<T>, leq: spec_fn(T, T) -> bool) -> Seq<T>
    decreases s.len(),
{
    if s.len() == 0 {
        Seq::empty()
    } else {
        insert_sorted_by(sort_by_insertion(s.drop_last(), leq), s.last(), leq)
    }
}

/// Where the insertion sort places `x` in `s`: just before the first element
/// that `x` sorts no later than.
pub open spec fn insert_sorted<T: Ordered>(s: Seq<T>, x: T) -> Seq<T> {
    insert_sorted_by(s, x, le_fn::<T>())
}

/// The insertion sort of `s`: every element inserted in turn, in order.
pub open spec fn sort_elems<T: Ordered>(s: Seq<T>) -> Seq<T> {
    sort_by_insertion(s, le_fn::<T>())
}

/// Inserting and then mapping the elements is mapping and then inserting,
/// when the two orders agree across the map.
pub proof fn lemma_insert_sorted_by_map<T, U>(
    s: Seq<T>,
    x: T,
    leq: spec_fn(T, T) -> bool,
    f: spec_fn(T) -> U,
    lequ: spec_fn(U, U) -> bool,
)
    requires
        forall|a: T, b: T| #[trigger] leq(a, b) == lequ(f(a), f(b)),
    ensures
        insert_sorted_by(s, x, leq).map_values(f) == insert_sorted_by(
            s.map_values(f),
            f(x),
            lequ,
        ),
    decreases s.len(),
{
    let m = s.map_values(f);
    if s.len() == 0 {
        assert(insert_sorted_by(s, x, leq).map_values(f) =~= insert_sorted_by(m, f(x), lequ));
    } else if leq(x, s[0]) {
        assert(lequ(f(x), m[0]));
        assert((seq![x] + s).map_values(f) =~= seq![f(x)] + m);
    } else {
        assert(!lequ(f(x), m[0]));
        lemma_insert_sorted_by_map(s.skip(1), x, leq, f, lequ);
        assert(s.skip(1).map_values(f) =~= m.skip(1));
        assert((seq![s[0]] + insert_sorted_by(s.skip(1), x, leq)).map_values(f) =~= seq![m[0]]
            + insert_sorted_by(s.skip(1), x, leq).map_values(f));
    }
}

/// Sorting and then mapping the elements is mapping and then sorting, when
/// the two orders agree across the map.
pub proof fn lemma_sort_by_insertion_map<T, U>(
    s: Seq<T>,
    leq: spec_fn(T, T) -> bool,
    f: spec_fn(T) -> U,
    lequ: spec_fn(U, U) -> bool,
)
    requires
        forall|a: T, b: T| #[trigger] leq(a, b) == lequ(f(a), f(b)),
    ensures
        sort_by_insertion(s, leq).map_values(f) == sort_by_insertion(s.map_values(f), lequ),
    decreases s.len(),
{
    let m = s.map_values(f);
    if s.len() == 0 {
        assert(sort_by_insertion(s, leq).map_values(f) =~= sort_by_insertion(m, lequ));
    } else {
        lemma_sort_by_insertion_map(s.drop_last(), leq, f, lequ);
        lemma_insert_sorted_by_map(sort_by_insertion(s.drop_last(), leq), s.last(), leq, f, lequ);
        assert(s.drop_last().map_values(f) =~= m.drop_last());
        assert(f(s.last()) == m.last());
    }
}

/// Inserting preserves the multiset of elements and keeps a sorted sequence
/// sorted.
proof fn lemma_insert_sorted<T: Ordered>(s: Seq<T>, x: T)
    ensures
        insert_sorted(s, x).to_multiset() == s.to_multiset().insert(x),
        insert_sorted(s, x).len() == s.len() + 1,
        sorted(s) ==> sorted(insert_sorted(s, x)),
    decreases s.len(),
{
    broadcast use vstd::seq_lib::group_to_multiset_ensures;

    let r = insert_sorted(s, x);
    if s.len() == 0 {
        assert(r =~= Seq::empty().push(x));
        assert(r.to_multiset() =~= s.to_multiset().insert(x));
    } else if x.le(s[0]) {
        assert(r =~= seq![x] + s);
        lemma_cons_multiset(x, s);
        if sorted(s) {
            assert forall|i: int, j: int| 0 <= i < j < r.len() implies #[trigger] r[i].le(
                r[j],
            ) by {
                if i == 0 {
                    if j == 1 {
                        assert(r[j] == s[0]);
                    } else {
                        assert(s[0].le(s[j - 1]));
                        T::lemma_le_trans(x, s[0], s[j - 1]);
                    }
                } else {
                    assert(s[i - 1].le(s[j - 1]));
                }
            }
        }
    } else {
        let rest = insert_sorted(s.skip(1), x);
        lemma_insert_sorted(s.skip(1), x);
        assert(r =~= seq![s[0]] + rest);
        lemma_cons_multiset(s[0], rest);
        assert(s =~= seq![s[0]] + s.skip(1));
        lemma_cons_multiset(s[0], s.skip(1));
        assert(r.to_multiset() =~= s.to_multiset().insert(x)) by {
            assert(r.to_multiset() =~= rest.to_multiset().insert(s[0]));
            assert(rest.to_multiset() =~= s.skip(1).to_multiset().insert(x));
            assert(s.to_multiset() =~= s.skip(1).to_multiset().insert(s[0]));
        }
        if sorted(s) {
            assert(sorted(s.skip(1)));
            T::lemma_le_total(x, s[0]);
            assert forall|j: int| 0 <= j < rest.len() implies s[0].le(rest[j]) by {
                assert(rest.to_multiset().contains(rest[j])) by {
                    assert(rest.contains(rest[j]));
                }
                assert(s.skip(1).to_multiset().insert(x).contains(rest[j]));
                if rest[j] == x {
                    assert(s[0].le(x));
                } else {
                    assert(s.skip(1).to_multiset().contains(rest[j]));
                    assert(s.skip(1).contains(rest[j]));
                    let k = choose|k: int|
                        0 <= k < s.skip(1).len() && s.skip(1)[k] == rest[j];
                    assert(s[0].le(s[k + 1]));
                }
            }
            assert forall|i: int, j: int| 0 <= i < j < r.len() implies #[trigger] r[i].le(
                r[j],
            ) by {
                if i == 0 {
                    assert(s[0].le(rest[j - 1]));
                } else {
                    assert(rest[i - 1].le(rest[j - 1]));
                }
            }
        }
    }
}

/// Prepending an element inserts it into the multiset.
proof fn lemma_cons_multiset<T>(x: T, s: Seq<T>)
    ensures
        (seq![x] + s).to_multiset() == s.to_multiset().insert(x),
    decreases s.len(),
{
    broadcast use vstd::seq_lib::group_to_multiset_ensures;

    if s.len() == 0 {
        assert(seq![x] + s =~= Seq::empty().push(x));
        assert((seq![x] + s).to_multiset() =~= s.to_multiset().insert(x));
    } else {
        assert(seq![x] + s =~= (seq![x] + s.drop_last()).push(s.last()));
        lemma_cons_multiset(x, s.drop_last());
        assert(s =~= s.drop_last().push(s.last()));
        assert((seq![x] + s).to_multiset() =~= (seq![x] + s.drop_last()).to_multiset().insert(
            s.last(),
        ));
        assert(s.to_multiset() =~= s.drop_last().to_multiset().insert(s.last()));
        assert((seq![x] + s).to_multiset() =~= s.to_multiset().insert(x)) by {
            assert((seq![x] + s.drop_last()).to_multiset() =~= s.drop_last().to_multiset().insert(
                x,
            ));
        }
    }
}

/// Sorting keeps exactly the elements of the input, as a multiset, and
/// produces a sorted sequence.
pub proof fn lemma_sort_elems<T: Ordered>(s: Seq<T>)
    ensures
        sort_elems(s).to_multiset() == s.to_multiset(),
        sort_elems(s).len() == s.len(),
        sorted(sort_elems(s)),
    decreases s.len(),
{
    broadcast use vstd::seq_lib::group_to_multiset_ensures;

    if s.len() == 0 {
    } else {
        lemma_sort_elems(s.drop_last());
        lemma_insert_sorted(sort_elems(s.drop_last()), s.last());
        assert(s =~= s.drop_last().push(s.last()));
        assert(s.to_multiset() =~= s.drop_last().to_multiset().insert(s.last()));
    }
}

/// A sorted sequence and its source hold the same elements.
pub proof fn lemma_sort_elems_contains<T: Ordered>(s: Seq<T>, x: T)
    ensures
        sort_elems(s).contains(x) <==> s.contains(x),
{
    broadcast use vstd::seq_lib::group_to_multiset_ensures;

    lemma_sort_elems(s);
    assert(s.contains(x) <==> s.to_multiset().count(x) > 0);
    assert(sort_elems(s).contains(x) <==> sort_elems(s).to_multiset().count(x) > 0);
}

/// When everything before index `k` sorts strictly earlier than `x`, and `x`
/// sorts no later than the element at `k` (when there is one), insertion
/// places `x` exactly at index `k`.
proof fn lemma_insert_sorted_at<T: Ordered>(s: Seq<T>, x: T, k: int)
    requires
        0 <= k <= s.len(),
        forall|j: int| 0 <= j < k ==> !x.le(#[trigger] s[j]),
        k < s.len() ==> x.le(s[k]),
    ensures
        insert_sorted(s, x) == s.take(k) + seq![x] + s.skip(k),
    decreases s.len(),
{
    if s.len() == 0 {
        assert(insert_sorted(s, x) =~= s.take(k) + seq![x] + s.skip(k));
    } else if x.le(s[0]) {
        assert(k == 0);
        assert(insert_sorted(s, x) =~= s.take(0) + seq![x] + s.skip(0));
    } else {
        assert(k >= 1);
        lemma_insert_sorted_at(s.skip(1), x, k - 1);
        assert(s.skip(1).take(k - 1) =~= s.take(k).skip(1));
        assert(s.skip(1).skip(k - 1) =~= s.skip(k));
        assert(seq![s[0]] + (s.skip(1).take(k - 1) + seq![x] + s.skip(1).skip(k - 1)) =~= s.take(k)
            + seq![x] + s.skip(k));
    }
}

/// Inserts `x` into the sorted vector `v`, keeping it sorted.
pub fn insert_into_sorted<T: Ordered>(v: &mut Vec<T>, x: T)
    ensures
        final(v)@ == insert_sorted(old(v)@, x),
{
    let mut k: usize = 0;
    while k < v.len() && !x.le_exec(&v[k])
        invariant
            k <= v@.len(),
            v == old(v),
            forall|j: int| 0 <= j < k ==> !x.le(#[trigger] v@[j]),
        decreases v@.len() - k,
    {
        k += 1;
    }
    proof {
        lemma_insert_sorted_at(v@, x, k as int);
    }
    v.insert(k, x);
    assert(final(v)@ =~= old(v)@.take(k as int) + seq![x] + old(v)@.skip(k as int));
}

/// Sorts the elements of `v` ascending under the order.
pub fn sort_vec<T: Ordered>(v: Vec<T>) -> (r: Vec<T>)
    ensures
        r@ == sort_elems(v@),
{
    let ghost orig = v@;
    let mut v = v;
    let mut r: Vec<T> = Vec::new();
    let ghost mut done: Seq<T> = Seq::empty();
    while v.len() > 0
        invariant
            orig == done + v@,
            r@ == sort_elems(done),
        decreases v@.len(),
    {
        let x = v.remove(0);
        proof {
            assert(done.push(x).drop_last() =~= done);
            assert(done.push(x).last() == x);
        }
        insert_into_sorted(&mut r, x);
        proof {
            done = done.push(x);
            assert(orig =~= done + v@);
        }
    }
    proof {
        assert(orig =~= done);
    }
    r
}

/// Whether `s` holds an element that the order treats as equal to `x`.
pub open spec fn contains_equiv<T: Ordered>(s: Seq<T>, x: T) -> bool {
    exists|i: int| 0 <= i < s.len() && #[trigger] eq_under(s[i], x)
}

/// Binary search: whether the sorted vector `v` holds an element that the
/// order treats as equal to `x`.
pub fn sorted_contains<T: Ordered>(v: &Vec<T>, x: &T) -> (r: bool)
    requires
        sorted(v@),
    ensures
        r == contains_equiv(v@, *x),
{
    let mut lo: usize = 0;
    let mut hi: usize = v.len();
    while lo < hi
        invariant
            lo <= hi <= v@.len(),
            sorted(v@),
            forall|i: int| 0 <= i < lo ==> !(*x).le(#[trigger] v@[i]),
            forall|i: int| hi <= i < v@.len() ==> !(#[trigger] v@[i]).le(*x),
        decreases hi - lo,
    {
        let mid = lo + (hi - lo) / 2;
        let vm_le_x = v[mid].le_exec(x);
        let x_le_vm = x.le_exec(&v[mid]);
        if vm_le_x && x_le_vm {
            assert(eq_under(v@[mid as int], *x));
            return true;
        }
        if vm_le_x {
            lo = mid + 1;
            assert forall|i: int| 0 <= i < lo implies !(*x).le(#[trigger] v@[i]) by {
                if i == mid as int {
                } else if i < mid as int {
                    if (*x).le(v@[i]) {
                        T::lemma_le_trans(*x, v@[i], v@[mid as int]);
                    }
                }
            }
        } else {
            proof {
                T::lemma_le_total(v@[mid as int], *x);
            }
            hi = mid;
            assert forall|i: int| hi <= i < v@.len() implies !(#[trigger] v@[i]).le(*x) by {
                if i > mid as int {
                    if v@[i].le(*x) {
                        T::lemma_le_trans(v@[mid as int], v@[i], *x);
                    }
                }
            }
        }
    }
    assert forall|i: int| 0 <= i < v@.len() implies !eq_under(v@[i], *x) by {}
    false
}

/// Whether the two sequences share an element under the order's equality.
pub open spec fn intersects<T: Ordered>(a: Seq<T>, b: Seq<T>) -> bool {
    exists|i: int, j: int|
        0 <= i < a.len() && 0 <= j < b.len() && #[trigger] eq_under(a[i], b[j])
}

/// Merge scan: whether the two sorted vectors share an element under the
/// order's equality.
pub fn sorted_intersect<T: Ordered>(a: &Vec<T>, b: &Vec<T>) -> (r: bool)
    requires
        sorted(a@),
        sorted(b@),
    ensures
        r == intersects(a@, b@),
{
    let mut i: usize = 0;
    let mut j: usize = 0;
    while i < a.len() && j < b.len()
        invariant
            i <= a@.len(),
            j <= b@.len(),
            sorted(a@),
            sorted(b@),
            forall|p: int, q: int|
                0 <= p < i && 0 <= q < b@.len() ==> !#[trigger] eq_under(a@[p], b@[q]),
            forall|p: int, q: int|
                0 <= p < a@.len() && 0 <= q < j ==> !#[trigger] eq_under(a@[p], b@[q]),
        decreases a@.len() - i + b@.len() - j,
    {
        let ai_le = a[i].le_exec(&b[j]);
        let bj_le = b[j].le_exec(&a[i]);
        if ai_le && bj_le {
            assert(eq_under(a@[i as int], b@[j as int]));
            return true;
        }
        if ai_le {
            let ghost iold = i as int;
            i += 1;
            assert forall|p: int, q: int|
                0 <= p < i && 0 <= q < b@.len() implies !#[trigger] eq_under(a@[p], b@[q]) by {
                if p == iold && q >= j {
                    if eq_under(a@[p], b@[q]) {
                        if q > j {
                            T::lemma_le_trans(b@[j as int], b@[q], a@[p]);
                        }
                    }
                }
            }
        } else {
            proof {
                T::lemma_le_total(a@[i as int], b@[j as int]);
            }
            let ghost jold = j as int;
            j += 1;
            assert forall|p: int, q: int|
                0 <= p < a@.len() && 0 <= q < j implies !#[trigger] eq_under(a@[p], b@[q]) by {
                if q == jold && p >= i {
                    if eq_under(a@[p], b@[q]) {
                        if p > i {
                            T::lemma_le_trans(a@[i as int], a@[p], b@[q]);
                        }
                    }
                }
            }
        }
    }
    false
}

/// Sharing an element is symmetric in its two sides.
pub proof fn lemma_intersects_symmetric<T: Ordered>(a: Seq<T>, b: Seq<T>)
    ensures
        intersects(a, b) == intersects(b, a),
{
    if intersects(a, b) {
        let (i, j) = choose|i: int, j: int|
            0 <= i < a.len() && 0 <= j < b.len() && #[trigger] eq_under(a[i], b[j]);
        assert(eq_under(b[j], a[i]));
    }
    if intersects(b, a) {
        let (i, j) = choose|i: int, j: int|
            0 <= i < b.len() && 0 <= j < a.len() && #[trigger] eq_under(b[i], a[j]);
        assert(eq_under(a[j], b[i]));
    }
}

/// A non-empty sequence shares an element with itself.
pub proof fn lemma_intersects_reflexive<T: Ordered>(a: Seq<T>)
    requires
        a.len() > 0,
    ensures
        intersects(a, a),
{
    T::lemma_le_total(a[0], a[0]);
    assert(eq_under(a[0], a[0]));
}

/// Lexicographic order on byte strings; a proper prefix sorts earlier.
pub open spec fn lex_le(a: Seq<u8>, b: Seq<u8>) -> bool
    decreases a.len(),
{
    if a.len() == 0 {
        true
    } else if b.len() == 0 {
        false
    } else if a[0] < b[0] {
        true
    } else if a[0] > b[0] {
        false
    } else {
        lex_le(a.skip(1), b.skip(1))
    }
}

/// The lexicographic order is total.
pub proof fn lemma_lex_le_total(a: Seq<u8>, b: Seq<u8>)
    ensures
        lex_le(a, b) || lex_le(b, a),
    decreases a.len(),
{
    if a.len() != 0 && b.len() != 0 && a[0] == b[0] {
        lemma_lex_le_total(a.skip(1), b.skip(1));
    }
}

/// The lexicographic order is antisymmetric: two strings that each sort no
/// later than the other are equal.
pub proof fn lemma_lex_le_antisym(a: Seq<u8>, b: Seq<u8>)
    requires
        lex_le(a, b),
        lex_le(b, a),
    ensures
        a == b,
    decreases a.len(),
{
    if a.len() == 0 {
        assert(a =~= b);
    } else {
        lemma_lex_le_antisym(a.skip(1), b.skip(1));
        assert(a =~= seq![a[0]] + a.skip(1));
        assert(b =~= seq![b[0]] + b.skip(1));
    }
}

/// The lexicographic order is transitive.
pub proof fn lemma_lex_le_trans(a: Seq<u8>, b: Seq<u8>, c: Seq<u8>)
    requires
        lex_le(a, b),
        lex_le(b, c),
    ensures
        lex_le(a, c),
    decreases a.len(),
{
    if a.len() != 0 && b.len() != 0 && c.len() != 0 {
        if a[0] == b[0] && b[0] == c[0] {
            lemma_lex_le_trans(a.skip(1), b.skip(1), c.skip(1));
        }
    }
}

/// Skipping an equal prefix does not change the order.
proof fn lemma_lex_le_skip(a: Seq<u8>, b: Seq<u8>, i: int)
    requires
        0 <= i <= a.len(),
        i <= b.len(),
        forall|j: int| 0 <= j < i ==> a[j] == b[j],
    ensures
        lex_le(a, b) == lex_le(a.skip(i), b.skip(i)),
    decreases i,
{
    if i == 0 {
        assert(a.skip(0) =~= a);
        assert(b.skip(0) =~= b);
    } else {
        assert(a.len() > 0 && b.len() > 0 && a[0] == b[0]);
        lemma_lex_le_skip(a.skip(1), b.skip(1), i - 1);
        assert(a.skip(1).skip(i - 1) =~= a.skip(i));
        assert(b.skip(1).skip(i - 1) =~= b.skip(i));
    }
}

/// Decides the lexicographic order on byte vectors.
pub fn lex_le_exec(a: &Vec<u8>, b: &Vec<u8>) -> (r: bool)
    ensures
        r == lex_le(a@, b@),
{
    let mut i: usize = 0;
    while i < a.len() && i < b.len()
        invariant
            i <= a@.len(),
            i <= b@.len(),
            forall|j: int| 0 <= j < i ==> a@[j] == b@[j],
        decreases a@.len() - i,
    {
        let x = a[i];
        let y = b[i];
        proof {
            lemma_lex_le_skip(a@, b@, i as int);
        }
        if x < y {
            return true;
        }
        if x > y {
            return false;
        }
        i += 1;
    }
    proof {
        lemma_lex_le_skip(a@, b@, i as int);
    }
    a.len() <= b.len()
}

/// Copies a byte vector.
pub fn clone_bytes(v: &Vec<u8>) -> (r: Vec<u8>)
    ensures
        r@ == v@,
{
    let mut r: Vec<u8> = Vec::new();
    let mut i: usize = 0;
    while i < v.len()
        invariant
            i <= v@.len(),
            r@ == v@.take(i as int),
        decreases v@.len() - i,
    {
        r.push(v[i]);
        proof {
            assert(v@.take(i + 1 as int) =~= v@.take(i as int).push(v@[i as int]));
        }
        i += 1;
    }
    proof {
        assert(v@.take(v@.len() as int) =~= v@);
    }
    r
}

/// Whether two byte vectors hold the same bytes.
pub fn bytes_eq(a: &Vec<u8>, b: &Vec<u8>) -> (r: bool)
    ensures
        r == (a@ == b@),
{
    if a.len() != b.len() {
        return false;
    }
    let mut i: usize = 0;
    while i < a.len()
        invariant
            a@.len() == b@.len(),
            i <= a@.len(),
            forall|j: int| 0 <= j < i ==> a@[j] == b@[j],
        decreases a@.len() - i,
    {
        if a[i] != b[i] {
            return false;
        }
        i += 1;
    }
    proof {
        assert(a@ =~= b@);
    }
    true
}

} // verus!

//! The order in which tables list their rows: by a key (a stream's alias,
//! a packet's arrival time), rows with equal keys keeping their order.
use vstd::prelude::*;

verus! {

/// A key that rows can be ordered by.
pub trait OrderKey: View + Sized {
    /// `a` comes strictly before `b`.
    spec fn precedes(a: <Self as View>::V, b: <Self as View>::V) -> bool;

    /// `precedes` is a strict total order.
    proof fn lemma_strict_total(a: <Self as View>::V, b: <Self as View>::V, c: <Self as View>::V)
        ensures
            !Self::precedes(a, a),
            Self::precedes(a, b) && Self::precedes(b, c) ==> Self::precedes(a, c),
            Self::precedes(a, b) || Self::precedes(b, a) || a == b,
    ;

    fn comes_before(&self, other: &Self) -> (r: bool)
        ensures
            r == Self::precedes(self@, other@),
    ;
}

impl OrderKey for u128 {
    open spec fn precedes(a: u128, b: u128) -> bool {
        a < b
    }

    proof fn lemma_strict_total(a: u128, b: u128, c: u128) {
    }

    fn comes_before(&self, other: &u128) -> (r: bool) {
        *self < *other
    }
}

/// `a` comes before `b` in dictionary order of their characters (the order
/// of `str`): at the first difference the smaller character wins, and a
/// proper prefix comes first.
pub open spec fn text_precedes(a: Seq<char>, b: Seq<char>) -> bool
    decreases a.len(),
{
    if a.len() == 0 {
        b.len() > 0
    } else if b.len() == 0 {
        false
    } else if a[0] < b[0] {
        true
    } else if a[0] == b[0] {
        text_precedes(a.drop_first(), b.drop_first())
    } else {
        false
    }
}

proof fn lemma_text_order(a: Seq<char>, b: Seq<char>, c: Seq<char>)
    ensures
        !text_precedes(a, a),
        text_precedes(a, b) && text_precedes(b, c) ==> text_precedes(a, c),
        text_precedes(a, b) || text_precedes(b, a) || a == b,
    decreases a.len(),
{
    if a.len() > 0 {
        let b2 = if b.len() > 0 {
            b.drop_first()
        } else {
            a.drop_first()
        };
        let c2 = if c.len() > 0 {
            c.drop_first()
        } else {
            b2
        };
        lemma_text_order(a.drop_first(), b2, c2);
        if b.len() > 0 && a[0] == b[0] && a.drop_first() == b.drop_first() {
            assert(a =~= seq![a[0]] + a.drop_first());
            assert(b =~= seq![b[0]] + b.drop_first());
        }
    }
}

impl OrderKey for String {
    open spec fn precedes(a: Seq<char>, b: Seq<char>) -> bool {
        text_precedes(a, b)
    }

    proof fn lemma_strict_total(a: Seq<char>, b: Seq<char>, c: Seq<char>) {
        lemma_text_order(a, b, c);
    }

    fn comes_before(&self, other: &String) -> (r: bool) {
        let a = crate::text::chars_of(self.as_str());
        let b = crate::text::chars_of(other.as_str());
        let mut i: usize = 0;
        assert(a@.skip(0) =~= a@);
        assert(b@.skip(0) =~= b@);
        while i < a.len() && i < b.len()
            invariant
                a@ == self@,
                b@ == other@,
                i <= a@.len(),
                i <= b@.len(),
                a@.subrange(0, i as int) == b@.subrange(0, i as int),
                text_precedes(a@, b@) == text_precedes(a@.skip(i as int), b@.skip(i as int)),
            decreases a.len() - i,
        {
            let x = a[i];
            let y = b[i];
            assert(a@.skip(i as int)[0] == x);
            assert(b@.skip(i as int)[0] == y);
            if x < y {
                return true;
            }
            if x != y {
                return false;
            }
            assert(a@.skip(i as int).drop_first() =~= a@.skip(i + 1));
            assert(b@.skip(i as int).drop_first() =~= b@.skip(i + 1));
            assert(a@.subrange(0, i + 1) =~= a@.subrange(0, i as int).push(x));
            assert(b@.subrange(0, i + 1) =~= b@.subrange(0, i as int).push(y));
            i = i + 1;
        }
        assert(i == a@.len() ==> a@.skip(i as int).len() == 0);
        assert(i == b@.len() ==> b@.skip(i as int).len() == 0);
        i < b.len()
    }
}

/// Row `a` is listed before row `b`: its key comes first, or the keys are
/// equal and `a` came first.
pub open spec fn listed_before<K: OrderKey>(keys: Seq<K::V>, a: int, b: int) -> bool {
    K::precedes(keys[a], keys[b]) || (keys[a] == keys[b] && a < b)
}

/// `order` lists every row index below `n` exactly once.
pub open spec fn lists_all(order: Seq<usize>, n: nat) -> bool {
    &&& order.len() == n
    &&& order.no_duplicates()
    &&& forall|i: int| 0 <= i < order.len() ==> order[i] < n
}

/// `order` lists rows by key, rows with equal keys in their first order.
pub open spec fn listed_by_key<K: OrderKey>(keys: Seq<K::V>, order: Seq<usize>) -> bool {
    forall|i: int, j: int|
        0 <= i < j < order.len() ==> listed_before::<K>(keys, order[i] as int, order[j] as int)
}

/// The listing of rows by key, ties in their first order (there is one
/// only: see [`lemma_listing_unique`]).
pub open spec fn stable_order<K: OrderKey>(keys: Seq<K::V>) -> Seq<usize> {
    choose|o: Seq<usize>| lists_all(o, keys.len()) && listed_by_key::<K>(keys, o)
}

/// The views of the keys.
pub open spec fn key_views<K: OrderKey>(keys: Seq<K>) -> Seq<K::V> {
    keys.map_values(|k: K| k@)
}

/// The order in which rows with these keys are listed: by key, rows with
/// equal keys in their first order (a stable sort of the row indices).
pub fn order_by_key<K: OrderKey>(keys: &Vec<K>) -> (order: Vec<usize>)
    ensures
        lists_all(order@, keys@.len()),
        listed_by_key::<K>(key_views(keys@), order@),
        order@ == stable_order::<K>(key_views(keys@)),
{
    let ghost kv = key_views(keys@);
    let mut order: Vec<usize> = Vec::new();
    let mut k: usize = 0;
    while k < keys.len()
        invariant
            kv == key_views(keys@),
            k <= keys@.len(),
            lists_all(order@, k as nat),
            listed_by_key::<K>(kv, order@),
        decreases keys.len() - k,
    {
        let mut p: usize = order.len();
        while p > 0 && keys[k].comes_before(&keys[order[p - 1]])
            invariant
                kv == key_views(keys@),
                k < keys@.len(),
                p <= order@.len(),
                lists_all(order@, k as nat),
                listed_by_key::<K>(kv, order@),
                forall|q: int| p <= q < order@.len() ==> K::precedes(kv[k as int], kv[order@[q] as int]),
            decreases p,
        {
            assert(kv[k as int] == keys@[k as int]@);
            p = p - 1;
        }
        proof {
            lemma_insert_keeps_order::<K>(kv, order@, k as int, p as int);
        }
        order.insert(p, k);
        k = k + 1;
    }
    proof {
        lemma_listing_unique::<K>(kv, order@, stable_order::<K>(kv));
    }
    order
}

/// Inserting row `k`, which follows every row listed so far, at a position
/// after every row whose key does not come after its own and before every
/// row whose key does keeps the listing ordered and complete.
proof fn lemma_insert_keeps_order<K: OrderKey>(kv: Seq<K::V>, order: Seq<usize>, k: int, p: int)
    requires
        0 <= k < kv.len(),
        0 <= p <= order.len(),
        k < usize::MAX,
        lists_all(order, k as nat),
        listed_by_key::<K>(kv, order),
        forall|q: int| p <= q < order.len() ==> K::precedes(kv[k], kv[order[q] as int]),
        p > 0 ==> !K::precedes(kv[k], kv[order[p - 1] as int]),
    ensures
        lists_all(order.insert(p, k as usize), (k + 1) as nat),
        listed_by_key::<K>(kv, order.insert(p, k as usize)),
{
    let o2 = order.insert(p, k as usize);
    assert forall|i: int| 0 <= i < o2.len() implies o2[i] < k + 1 by {
        if i < p {
            assert(o2[i] == order[i]);
        } else if i > p {
            assert(o2[i] == order[i - 1]);
        }
    }
    assert forall|i: int, j: int| 0 <= i < j < o2.len() implies o2[i] != o2[j] by {
        if i != p && j != p {
            let oi = if i < p { i } else { i - 1 };
            let oj = if j < p { j } else { j - 1 };
            assert(o2[i] == order[oi]);
            assert(o2[j] == order[oj]);
        } else if i == p {
            let oj = j - 1;
            assert(o2[j] == order[oj]);
        } else {
            assert(o2[i] == order[i]);
        }
    }
    assert forall|i: int, j: int| 0 <= i < j < o2.len() implies listed_before::<K>(
        kv,
        o2[i] as int,
        o2[j] as int,
    ) by {
        if i != p && j != p {
            let oi = if i < p { i } else { i - 1 };
            let oj = if j < p { j } else { j - 1 };
            assert(o2[i] == order[oi]);
            assert(o2[j] == order[oj]);
        } else if i == p {
            assert(o2[j] == order[j - 1]);
        } else {
            // j == p: the row listed at i comes no later than the one at p - 1,
            // whose key does not come after row k's.
            assert(o2[i] == order[i]);
            let last = order[p - 1] as int;
            let x = order[i] as int;
            K::lemma_strict_total(kv[x], kv[last], kv[k]);
            K::lemma_strict_total(kv[last], kv[k], kv[x]);
            K::lemma_strict_total(kv[k], kv[last], kv[x]);
            if i < p - 1 {
                assert(listed_before::<K>(kv, x, last));
            }
        }
    }
}

/// A listing of every row index below `n` holds each of them.
pub proof fn lemma_lists_every_row(order: Seq<usize>, n: nat)
    requires
        lists_all(order, n),
    ensures
        forall|x: usize| x < n ==> order.contains(x),
{
    order.unique_seq_to_set();
    vstd::seq_lib::seq_to_set_is_finite(order);
    let rows = order.to_set();
    let f = |x: usize| x as int;
    let image = rows.map(f);
    assert(vstd::relations::injective_on(f, rows));
    vstd::set_lib::lemma_map_size(rows, image, f);
    let range = vstd::set_lib::set_int_range(0, n as int);
    vstd::set_lib::lemma_int_range(0, n as int);
    assert forall|y: int| image.contains(y) implies range.contains(y) by {
        let x = choose|x: usize| rows.contains(x) && f(x) == y;
        let i = choose|i: int| 0 <= i < order.len() && order[i] == x;
        assert(order[i] < n);
    }
    vstd::set_lib::lemma_subset_equality(image, range);
    assert forall|x: usize| x < n implies order.contains(x) by {
        assert(range.contains(x as int));
        assert(image.contains(x as int));
        let w = choose|w: usize| rows.contains(w) && f(w) == x as int;
        assert(w == x);
    }
}

/// Rows with these keys can be listed by key, ties in their first order,
/// in one way only: the listing of [`order_by_key`] is the stable sort.
pub proof fn lemma_listing_unique<K: OrderKey>(keys: Seq<K::V>, o1: Seq<usize>, o2: Seq<usize>)
    requires
        lists_all(o1, keys.len()),
        lists_all(o2, keys.len()),
        listed_by_key::<K>(keys, o1),
        listed_by_key::<K>(keys, o2),
    ensures
        o1 == o2,
{
    lemma_lists_every_row(o1, keys.len());
    lemma_lists_every_row(o2, keys.len());
    lemma_same_prefix::<K>(keys, o1, o2, o1.len() as int);
    assert(o1 =~= o2);
}

proof fn lemma_same_prefix<K: OrderKey>(keys: Seq<K::V>, o1: Seq<usize>, o2: Seq<usize>, k: int)
    requires
        0 <= k <= o1.len(),
        lists_all(o1, keys.len()),
        lists_all(o2, keys.len()),
        listed_by_key::<K>(keys, o1),
        listed_by_key::<K>(keys, o2),
        forall|x: usize| x < keys.len() ==> o1.contains(x),
        forall|x: usize| x < keys.len() ==> o2.contains(x),
    ensures
        forall|i: int| 0 <= i < k ==> o1[i] == o2[i],
    decreases k,
{
    if k > 0 {
        lemma_same_prefix::<K>(keys, o1, o2, k - 1);
        let i = k - 1;
        let a = o1[i];
        let b = o2[i];
        if a != b {
            // `b` stands in `o1` after position i, and `a` in `o2` likewise.
            assert(o1.contains(b));
            assert(o2.contains(a));
            let jb = choose|j: int| 0 <= j < o1.len() && o1[j] == b;
            let ja = choose|j: int| 0 <= j < o2.len() && o2[j] == a;
            if jb < i {
                assert(o2[jb] == b);
            }
            if ja < i {
                assert(o1[ja] == a);
            }
            assert(listed_before::<K>(keys, a as int, b as int));
            assert(listed_before::<K>(keys, b as int, a as int));
            K::lemma_strict_total(keys[a as int], keys[b as int], keys[a as int]);
            K::lemma_strict_total(keys[b as int], keys[a as int], keys[b as int]);
        }
    }
}


} // verus!

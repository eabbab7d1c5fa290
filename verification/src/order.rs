//! Canonical ordering: composite sort keys made of text and numbers, their
//! lexicographic order, and a stable sort that is proved to return the unique
//! ordering of the input by (key, original position).
use vstd::prelude::*;

verus! {

/// One component of a composite sort key, as compared at run time.
pub enum SortKeyPart {
    Text(Vec<char>),
    Num(u64),
}

/// One component of a composite sort key, as the contracts see it.
pub enum SortKeyView {
    Text(Seq<char>),
    Num(u64),
}

pub open spec fn part_view(p: SortKeyPart) -> SortKeyView {
    match p {
        SortKeyPart::Text(v) => SortKeyView::Text(v@),
        SortKeyPart::Num(n) => SortKeyView::Num(n),
    }
}

pub open spec fn key_view(k: Seq<SortKeyPart>) -> Seq<SortKeyView> {
    k.map_values(|p: SortKeyPart| part_view(p))
}

/// Three-way comparison result.
#[derive(Debug, Clone, Copy, PartialEq, Eq, Structural)]
pub enum Comparison {
    Less,
    Equal,
    Greater,
}

/// Code-point order on characters (the order `str` uses, since UTF-8 keeps it).
pub open spec fn char_lt(a: char, b: char) -> bool {
    a < b
}

/// Lexicographic order on character sequences; a proper prefix comes first.
pub open spec fn text_lt(a: Seq<char>, b: Seq<char>) -> bool
    decreases a.len(),
{
    if a.len() == 0 {
        b.len() > 0
    } else if b.len() == 0 {
        false
    } else if a[0] != b[0] {
        char_lt(a[0], b[0])
    } else {
        text_lt(a.drop_first(), b.drop_first())
    }
}

/// Order on key components: numbers compare numerically, text
/// lexicographically, and a number sorts before text.
pub open spec fn part_lt(a: SortKeyView, b: SortKeyView) -> bool {
    match (a, b) {
        (SortKeyView::Num(x), SortKeyView::Num(y)) => x < y,
        (SortKeyView::Text(x), SortKeyView::Text(y)) => text_lt(x, y),
        (SortKeyView::Num(_), SortKeyView::Text(_)) => true,
        (SortKeyView::Text(_), SortKeyView::Num(_)) => false,
    }
}

/// Lexicographic order on composite keys.
pub open spec fn key_lt(a: Seq<SortKeyView>, b: Seq<SortKeyView>) -> bool
    decreases a.len(),
{
    if a.len() == 0 {
        b.len() > 0
    } else if b.len() == 0 {
        false
    } else if a[0] != b[0] {
        part_lt(a[0], b[0])
    } else {
        key_lt(a.drop_first(), b.drop_first())
    }
}

// ─── order lemmas ────────────────────────────────────────────────────────────

pub proof fn lemma_text_lt_irreflexive(a: Seq<char>)
    ensures
        !text_lt(a, a),
    decreases a.len(),
{
    if a.len() > 0 {
        lemma_text_lt_irreflexive(a.drop_first());
    }
}

pub proof fn lemma_text_lt_transitive(a: Seq<char>, b: Seq<char>, c: Seq<char>)
    requires
        text_lt(a, b),
        text_lt(b, c),
    ensures
        text_lt(a, c),
    decreases a.len(),
{
    if a.len() > 0 && b.len() > 0 && c.len() > 0 {
        if a[0] == b[0] && b[0] == c[0] {
            lemma_text_lt_transitive(a.drop_first(), b.drop_first(), c.drop_first());
        }
    }
}

pub proof fn lemma_text_lt_total(a: Seq<char>, b: Seq<char>)
    ensures
        a == b || text_lt(a, b) || text_lt(b, a),
    decreases a.len(),
{
    if a.len() > 0 && b.len() > 0 {
        if a[0] == b[0] {
            lemma_text_lt_total(a.drop_first(), b.drop_first());
            if a.drop_first() == b.drop_first() {
                assert(a =~= seq![a[0]] + a.drop_first());
                assert(b =~= seq![b[0]] + b.drop_first());
            }
        }
    } else if a.len() == 0 && b.len() == 0 {
        assert(a =~= b);
    }
}

pub proof fn lemma_text_lt_asymmetric(a: Seq<char>, b: Seq<char>)
    requires
        text_lt(a, b),
    ensures
        !text_lt(b, a),
{
    if text_lt(b, a) {
        lemma_text_lt_transitive(a, b, a);
        lemma_text_lt_irreflexive(a);
    }
}

pub proof fn lemma_part_lt_irreflexive(a: SortKeyView)
    ensures
        !part_lt(a, a),
{
    if let SortKeyView::Text(x) = a {
        lemma_text_lt_irreflexive(x);
    }
}

pub proof fn lemma_part_lt_transitive(a: SortKeyView, b: SortKeyView, c: SortKeyView)
    requires
        part_lt(a, b),
        part_lt(b, c),
    ensures
        part_lt(a, c),
{
    match (a, b, c) {
        (SortKeyView::Text(x), SortKeyView::Text(y), SortKeyView::Text(z)) => {
            lemma_text_lt_transitive(x, y, z);
        },
        _ => {},
    }
}

pub proof fn lemma_part_lt_total(a: SortKeyView, b: SortKeyView)
    ensures
        a == b || part_lt(a, b) || part_lt(b, a),
{
    match (a, b) {
        (SortKeyView::Text(x), SortKeyView::Text(y)) => {
            lemma_text_lt_total(x, y);
        },
        _ => {},
    }
}

pub proof fn lemma_key_lt_irreflexive(a: Seq<SortKeyView>)
    ensures
        !key_lt(a, a),
    decreases a.len(),
{
    if a.len() > 0 {
        lemma_key_lt_irreflexive(a.drop_first());
    }
}

pub proof fn lemma_key_lt_transitive(a: Seq<SortKeyView>, b: Seq<SortKeyView>, c: Seq<SortKeyView>)
    requires
        key_lt(a, b),
        key_lt(b, c),
    ensures
        key_lt(a, c),
    decreases a.len(),
{
    if a.len() > 0 && b.len() > 0 && c.len() > 0 {
        if a[0] == b[0] && b[0] == c[0] {
            lemma_key_lt_transitive(a.drop_first(), b.drop_first(), c.drop_first());
        } else if a[0] != b[0] && b[0] != c[0] {
            lemma_part_lt_transitive(a[0], b[0], c[0]);
            if a[0] == c[0] {
                lemma_part_lt_irreflexive(a[0]);
            }
        } else if a[0] == c[0] {
            lemma_part_lt_irreflexive(a[0]);
        }
    }
}

pub proof fn lemma_key_lt_total(a: Seq<SortKeyView>, b: Seq<SortKeyView>)
    ensures
        a == b || key_lt(a, b) || key_lt(b, a),
    decreases a.len(),
{
    if a.len() > 0 && b.len() > 0 {
        if a[0] == b[0] {
            lemma_key_lt_total(a.drop_first(), b.drop_first());
            if a.drop_first() == b.drop_first() {
                assert(a =~= seq![a[0]] + a.drop_first());
                assert(b =~= seq![b[0]] + b.drop_first());
            }
        } else {
            lemma_part_lt_total(a[0], b[0]);
        }
    } else if a.len() == 0 && b.len() == 0 {
        assert(a =~= b);
    }
}

pub proof fn lemma_key_lt_asymmetric(a: Seq<SortKeyView>, b: Seq<SortKeyView>)
    requires
        key_lt(a, b),
    ensures
        !key_lt(b, a),
{
    if key_lt(b, a) {
        lemma_key_lt_transitive(a, b, a);
        lemma_key_lt_irreflexive(a);
    }
}

// ─── stable orders ───────────────────────────────────────────────────────────

/// Position `x` comes before position `y`: smaller key, or equal keys and an
/// earlier original position.
pub open spec fn before(keys: Seq<Seq<SortKeyView>>, x: usize, y: usize) -> bool {
    key_lt(keys[x as int], keys[y as int]) || (keys[x as int] == keys[y as int] && x < y)
}

/// `perm` lists every position of `keys` once, in the order of `before`.
pub open spec fn is_stable_order(keys: Seq<Seq<SortKeyView>>, perm: Seq<usize>) -> bool {
    &&& perm.len() == keys.len()
    &&& forall|i: int| 0 <= i < perm.len() ==> (#[trigger] perm[i]) < keys.len()
    &&& forall|i: int, j: int|
        0 <= i < j < perm.len() ==> before(keys, #[trigger] perm[i], #[trigger] perm[j])
}

proof fn lemma_before_transitive(keys: Seq<Seq<SortKeyView>>, x: usize, y: usize, z: usize)
    requires
        before(keys, x, y),
        before(keys, y, z),
    ensures
        before(keys, x, z),
{
    if key_lt(keys[x as int], keys[y as int]) && key_lt(keys[y as int], keys[z as int]) {
        lemma_key_lt_transitive(keys[x as int], keys[y as int], keys[z as int]);
    }
}

proof fn lemma_before_irreflexive(keys: Seq<Seq<SortKeyView>>, x: usize)
    ensures
        !before(keys, x, x),
{
    lemma_key_lt_irreflexive(keys[x as int]);
}

/// Orders with the same elements that both follow `before` are equal.
proof fn lemma_sorted_unique(keys: Seq<Seq<SortKeyView>>, p: Seq<usize>, q: Seq<usize>)
    requires
        p.len() == q.len(),
        forall|i: int| 0 <= i < p.len() ==> q.contains(#[trigger] p[i]),
        forall|i: int| 0 <= i < q.len() ==> p.contains(#[trigger] q[i]),
        forall|i: int, j: int| 0 <= i < j < p.len() ==> before(keys, #[trigger] p[i], #[trigger] p[j]),
        forall|i: int, j: int| 0 <= i < j < q.len() ==> before(keys, #[trigger] q[i], #[trigger] q[j]),
    ensures
        p == q,
    decreases p.len(),
{
    if p.len() == 0 {
        assert(p =~= q);
    } else {
        // The first elements are both minimal, hence equal.
        if p[0] != q[0] {
            let i = choose|i: int| 0 <= i < q.len() && q[i] == p[0];
            let j = choose|j: int| 0 <= j < p.len() && p[j] == q[0];
            assert(i != 0);
            assert(j != 0);
            assert(before(keys, q[0], q[i]));
            assert(before(keys, p[0], p[j]));
            lemma_before_transitive(keys, p[0], q[0], p[0]);
            lemma_before_irreflexive(keys, p[0]);
        }
        let p1 = p.drop_first();
        let q1 = q.drop_first();
        assert forall|i: int| 0 <= i < p1.len() implies q1.contains(#[trigger] p1[i]) by {
            assert(p[i + 1] == p1[i]);
            assert(q.contains(p[i + 1]));
            let k = choose|k: int| 0 <= k < q.len() && q[k] == p[i + 1];
            if k == 0 {
                assert(before(keys, p[0], p[i + 1]));
                lemma_before_irreflexive(keys, p[0]);
            }
            assert(q1[k - 1] == q[k]);
        }
        assert forall|i: int| 0 <= i < q1.len() implies p1.contains(#[trigger] q1[i]) by {
            assert(q[i + 1] == q1[i]);
            assert(p.contains(q[i + 1]));
            let k = choose|k: int| 0 <= k < p.len() && p[k] == q[i + 1];
            if k == 0 {
                assert(before(keys, q[0], q[i + 1]));
                lemma_before_irreflexive(keys, q[0]);
            }
            assert(p1[k - 1] == p[k]);
        }
        assert forall|i: int, j: int| 0 <= i < j < p1.len() implies before(
            keys,
            #[trigger] p1[i],
            #[trigger] p1[j],
        ) by {
            assert(p1[i] == p[i + 1] && p1[j] == p[j + 1]);
        }
        assert forall|i: int, j: int| 0 <= i < j < q1.len() implies before(
            keys,
            #[trigger] q1[i],
            #[trigger] q1[j],
        ) by {
            assert(q1[i] == q[i + 1] && q1[j] == q[j + 1]);
        }
        lemma_sorted_unique(keys, p1, q1);
        assert(p =~= seq![p[0]] + p1);
        assert(q =~= seq![q[0]] + q1);
    }
}

/// The stable order of a key sequence is unique.
pub proof fn lemma_stable_order_unique(keys: Seq<Seq<SortKeyView>>, p: Seq<usize>, q: Seq<usize>)
    requires
        keys.len() <= usize::MAX,
        is_stable_order(keys, p),
        is_stable_order(keys, q),
    ensures
        p == q,
{
    // Both hold exactly the positions 0..len, so they hold the same elements.
    lemma_stable_order_covers(keys, p);
    lemma_stable_order_covers(keys, q);
    assert forall|i: int| 0 <= i < p.len() implies q.contains(#[trigger] p[i]) by {
        assert(p[i] < keys.len());
    }
    assert forall|i: int| 0 <= i < q.len() implies p.contains(#[trigger] q[i]) by {
        assert(q[i] < keys.len());
    }
    lemma_sorted_unique(keys, p, q);
}

/// A stable order holds every position of the key sequence.
pub proof fn lemma_stable_order_covers(keys: Seq<Seq<SortKeyView>>, p: Seq<usize>)
    requires
        keys.len() <= usize::MAX,
        is_stable_order(keys, p),
    ensures
        forall|x: usize| x < keys.len() ==> p.contains(x),
{
    // No position appears twice (`before` is irreflexive), so the `len`
    // distinct values below `len` are all of them.
    assert forall|i: int, j: int| 0 <= i < j < p.len() implies p[i] != p[j] by {
        assert(before(keys, p[i], p[j]));
        lemma_before_irreflexive(keys, p[i]);
    }
    lemma_distinct_below_covers(p, keys.len());
}

proof fn lemma_distinct_below_covers(p: Seq<usize>, n: nat)
    requires
        n <= usize::MAX + 1,
        p.len() == n,
        forall|i: int| 0 <= i < p.len() ==> (#[trigger] p[i]) < n,
        forall|i: int, j: int| 0 <= i < j < p.len() ==> p[i] != p[j],
    ensures
        forall|x: usize| x < n ==> p.contains(x),
{
    let s = p.to_set();
    let full = Set::new(|x: usize| x < n);
    assert forall|x: usize| s.contains(x) implies full.contains(x) by {
        let i = choose|i: int| 0 <= i < p.len() && p[i] == x;
    }
    p.unique_seq_to_set();
    assert(s.len() == n);
    lemma_range_set_len(n);
    assert(full.finite() && full.len() == n);
    vstd::set_lib::lemma_subset_equality(s, full);
    assert forall|x: usize| x < n implies p.contains(x) by {
        assert(full.contains(x));
        assert(s.contains(x));
    }
}

proof fn lemma_range_set_len(n: nat)
    requires
        n <= usize::MAX + 1,
    ensures
        Set::new(|x: usize| x < n).finite(),
        Set::new(|x: usize| x < n).len() == n,
    decreases n,
{
    let full = Set::new(|x: usize| x < n);
    if n == 0 {
        assert(full =~= Set::empty());
    } else {
        lemma_range_set_len((n - 1) as nat);
        let smaller = Set::new(|x: usize| x < (n - 1) as nat);
        let top = (n - 1) as usize;
        assert(full =~= smaller.insert(top));
    }
}

/// The stable order of a key sequence (unique by `lemma_stable_order_unique`).
pub open spec fn sorted_positions(keys: Seq<Seq<SortKeyView>>) -> Seq<usize> {
    choose|p: Seq<usize>| is_stable_order(keys, p)
}

proof fn lemma_before_total(keys: Seq<Seq<SortKeyView>>, x: usize, y: usize)
    requires
        x != y,
    ensures
        before(keys, x, y) || before(keys, y, x),
{
    lemma_key_lt_total(keys[x as int], keys[y as int]);
}

/// Positions listed in the order of `before`.
spec fn sorted_by_before(keys: Seq<Seq<SortKeyView>>, p: Seq<usize>) -> bool {
    forall|i: int, j: int| 0 <= i < j < p.len() ==> before(keys, #[trigger] p[i], #[trigger] p[j])
}

/// `p` with `x` inserted before the first position that `x` comes before.
spec fn insert_by_before(keys: Seq<Seq<SortKeyView>>, p: Seq<usize>, x: usize) -> Seq<usize>
    decreases p.len(),
{
    if p.len() == 0 {
        seq![x]
    } else if before(keys, x, p[0]) {
        seq![x] + p
    } else {
        seq![p[0]] + insert_by_before(keys, p.drop_first(), x)
    }
}

proof fn lemma_insert_by_before(keys: Seq<Seq<SortKeyView>>, p: Seq<usize>, x: usize, bound: nat)
    requires
        sorted_by_before(keys, p),
        forall|i: int| 0 <= i < p.len() ==> (#[trigger] p[i]) != x && p[i] < bound,
        x < bound,
    ensures
        insert_by_before(keys, p, x).len() == p.len() + 1,
        sorted_by_before(keys, insert_by_before(keys, p, x)),
        forall|i: int| 0 <= i < insert_by_before(keys, p, x).len() ==> #[trigger] insert_by_before(keys, p, x)[i] < bound,
        forall|i: int| 0 <= i < insert_by_before(keys, p, x).len() ==> (#[trigger] insert_by_before(keys, p, x)[i] == x
            || p.contains(insert_by_before(keys, p, x)[i])),
    decreases p.len(),
{
    let q = insert_by_before(keys, p, x);
    if p.len() == 0 {
    } else if before(keys, x, p[0]) {
        assert forall|i: int, j: int| 0 <= i < j < q.len() implies before(keys, #[trigger] q[i], #[trigger] q[j]) by {
            if i == 0 {
                if j > 1 {
                    assert(before(keys, p[0], p[j - 1]));
                    lemma_before_transitive(keys, x, p[0], p[j - 1]);
                }
            } else {
                assert(q[i] == p[i - 1] && q[j] == p[j - 1]);
            }
        }
        assert forall|i: int| 0 <= i < q.len() implies (#[trigger] q[i] == x || p.contains(q[i])) by {
            if i > 0 {
                assert(q[i] == p[i - 1]);
            }
        }
    } else {
        let p1 = p.drop_first();
        assert forall|i: int, j: int| 0 <= i < j < p1.len() implies before(keys, #[trigger] p1[i], #[trigger] p1[j]) by {
            assert(p1[i] == p[i + 1] && p1[j] == p[j + 1]);
        }
        assert forall|i: int| 0 <= i < p1.len() implies (#[trigger] p1[i]) != x && p1[i] < bound by {
            assert(p1[i] == p[i + 1]);
        }
        lemma_insert_by_before(keys, p1, x, bound);
        let r = insert_by_before(keys, p1, x);
        assert(q == seq![p[0]] + r);
        lemma_before_total(keys, x, p[0]);
        assert forall|i: int, j: int| 0 <= i < j < q.len() implies before(keys, #[trigger] q[i], #[trigger] q[j]) by {
            if i == 0 {
                assert(q[j] == r[j - 1]);
                if r[j - 1] != x {
                    assert(p1.contains(r[j - 1]));
                    let k = choose|k: int| 0 <= k < p1.len() && p1[k] == r[j - 1];
                    assert(p1[k] == p[k + 1]);
                    assert(before(keys, p[0], p[k + 1]));
                }
            } else {
                assert(q[i] == r[i - 1] && q[j] == r[j - 1]);
            }
        }
        assert forall|i: int| 0 <= i < q.len() implies #[trigger] q[i] < bound by {
            if i > 0 {
                assert(q[i] == r[i - 1]);
            }
        }
        assert forall|i: int| 0 <= i < q.len() implies (#[trigger] q[i] == x || p.contains(q[i])) by {
            if i == 0 {
                assert(p[0] == q[0]);
            } else {
                assert(q[i] == r[i - 1]);
                if r[i - 1] != x {
                    let k = choose|k: int| 0 <= k < p1.len() && p1[k] == r[i - 1];
                    assert(p[k + 1] == q[i]);
                }
            }
        }
    }
}

proof fn lemma_prefix_order_exists(keys: Seq<Seq<SortKeyView>>, n: nat)
    requires
        n <= keys.len(),
        keys.len() <= usize::MAX,
    ensures
        exists|p: Seq<usize>|
            p.len() == n && (forall|i: int| 0 <= i < p.len() ==> (#[trigger] p[i]) < n) && sorted_by_before(keys, p),
    decreases n,
{
    if n == 0 {
        let p: Seq<usize> = seq![];
        assert(p.len() == 0 && sorted_by_before(keys, p));
    } else {
        let m = (n - 1) as nat;
        lemma_prefix_order_exists(keys, m);
        let p = choose|p: Seq<usize>|
            p.len() == m && (forall|i: int| 0 <= i < p.len() ==> (#[trigger] p[i]) < m) && sorted_by_before(keys, p);
        let x = m as usize;
        lemma_insert_by_before(keys, p, x, n);
        let q = insert_by_before(keys, p, x);
        assert(q.len() == n && (forall|i: int| 0 <= i < q.len() ==> (#[trigger] q[i]) < n) && sorted_by_before(keys, q));
    }
}

/// Every key sequence that fits in memory has a stable order, so
/// `sorted_positions` names one.
pub proof fn lemma_stable_order_exists(keys: Seq<Seq<SortKeyView>>)
    requires
        keys.len() <= usize::MAX,
    ensures
        is_stable_order(keys, sorted_positions(keys)),
{
    lemma_prefix_order_exists(keys, keys.len());
    let p = choose|p: Seq<usize>|
        p.len() == keys.len() && (forall|i: int| 0 <= i < p.len() ==> (#[trigger] p[i]) < keys.len())
            && sorted_by_before(keys, p);
    assert(is_stable_order(keys, p));
}

/// Items listed in the order given by a sequence of positions.
pub open spec fn reorder<T>(items: Seq<T>, positions: Seq<usize>) -> Seq<T> {
    positions.map_values(|i: usize| items[i as int])
}

/// A computed stable order is the one `sorted_positions` names.
pub proof fn lemma_sorted_positions(keys: Seq<Seq<SortKeyView>>, p: Seq<usize>)
    requires
        keys.len() <= usize::MAX,
        is_stable_order(keys, p),
    ensures
        sorted_positions(keys) == p,
{
    let q = sorted_positions(keys);
    assert(is_stable_order(keys, q));
    lemma_stable_order_unique(keys, p, q);
}

/// Positions 0, 1, ..., n - 1, in order.
pub open spec fn identity_positions(n: nat) -> Seq<usize> {
    Seq::new(n, |i: int| i as usize)
}

/// Listing items by the identity positions gives the items back.
pub proof fn lemma_reorder_identity<T>(items: Seq<T>)
    requires
        items.len() <= usize::MAX,
    ensures
        reorder(items, identity_positions(items.len())) == items,
{
    let r = reorder(items, identity_positions(items.len()));
    assert forall|i: int| 0 <= i < items.len() implies r[i] == items[i] by {
        assert(identity_positions(items.len())[i] as int == i);
    }
    assert(r =~= items);
}

/// Sorting keys that are already in stable order keeps every position in
/// place.
pub proof fn lemma_resort_is_identity(keys: Seq<Seq<SortKeyView>>)
    requires
        keys.len() <= usize::MAX,
    ensures
        sorted_positions(reorder(keys, sorted_positions(keys))) == identity_positions(keys.len()),
{
    lemma_stable_order_exists(keys);
    let p = sorted_positions(keys);
    let k2 = reorder(keys, p);
    let id = identity_positions(keys.len());
    assert forall|i: int, j: int| 0 <= i < j < id.len() implies before(k2, #[trigger] id[i], #[trigger] id[j]) by {
        assert(before(keys, p[i], p[j]));
        assert(k2[i] == keys[p[i] as int] && k2[j] == keys[p[j] as int]);
        assert(id[i] as int == i && id[j] as int == j);
    }
    assert(is_stable_order(k2, id));
    lemma_sorted_positions(k2, id);
}

/// Filtering by a predicate that every item meets changes nothing.
pub proof fn lemma_filter_all<T>(s: Seq<T>, pred: spec_fn(T) -> bool)
    requires
        forall|i: int| 0 <= i < s.len() ==> pred(#[trigger] s[i]),
    ensures
        s.filter(pred) == s,
    decreases s.len(),
{
    reveal(Seq::filter);
    if s.len() > 0 {
        let t = s.drop_last();
        assert forall|i: int| 0 <= i < t.len() implies pred(#[trigger] t[i]) by {
            assert(t[i] == s[i]);
        }
        lemma_filter_all(t, pred);
        assert(pred(s[s.len() - 1]));
        assert(t.push(s.last()) =~= s);
    }
}

// ─── run-time comparison and sorting ────────────────────────────────────────

/// Characters of a string slice, in order.
pub fn chars_of(s: &str) -> (r: Vec<char>)
    ensures
        r@ == s@,
{
    let n = s.unicode_len();
    let mut out: Vec<char> = Vec::new();
    for i in 0..n
        invariant
            n == s@.len(),
            out@ == s@.subrange(0, i as int),
    {
        out.push(s.get_char(i));
        proof {
            assert(out@ =~= s@.subrange(0, i + 1));
        }
    }
    proof {
        assert(s@.subrange(0, n as int) =~= s@);
    }
    out
}

/// Compares two character sequences lexicographically.
pub fn compare_text(a: &Vec<char>, b: &Vec<char>) -> (r: Comparison)
    ensures
        r == Comparison::Less <==> text_lt(a@, b@),
        r == Comparison::Equal <==> a@ == b@,
        r == Comparison::Greater <==> text_lt(b@, a@),
{
    let n = a.len();
    let m = b.len();
    let mut i: usize = 0;
    proof {
        assert(a@.skip(0) =~= a@);
        assert(b@.skip(0) =~= b@);
        assert(a@.subrange(0, 0) =~= b@.subrange(0, 0));
    }
    while i < n && i < m
        invariant
            n == a@.len(),
            m == b@.len(),
            i <= n,
            i <= m,
            a@.subrange(0, i as int) == b@.subrange(0, i as int),
            text_lt(a@, b@) == text_lt(a@.skip(i as int), b@.skip(i as int)),
            text_lt(b@, a@) == text_lt(b@.skip(i as int), a@.skip(i as int)),
        decreases n - i,
    {
        let x = a[i];
        let y = b[i];
        proof {
            assert(a@.skip(i as int)[0] == x);
            assert(b@.skip(i as int)[0] == y);
            assert(a@.skip(i as int).drop_first() =~= a@.skip(i + 1));
            assert(b@.skip(i as int).drop_first() =~= b@.skip(i + 1));
        }
        if x != y {
            proof {
                assert(a@[i as int] != b@[i as int]);
                assert(a@ != b@);
            }
            if x < y {
                proof {
                    lemma_text_lt_asymmetric(a@, b@);
                }
                return Comparison::Less;
            } else {
                proof {
                    lemma_text_lt_asymmetric(b@, a@);
                }
                return Comparison::Greater;
            }
        }
        proof {
            assert(a@.subrange(0, i + 1) =~= a@.subrange(0, i as int).push(x));
            assert(b@.subrange(0, i + 1) =~= b@.subrange(0, i as int).push(y));
        }
        i = i + 1;
    }
    proof {
        if i == n {
            assert(a@.subrange(0, i as int) =~= a@);
        }
        if i == m {
            assert(b@.subrange(0, i as int) =~= b@);
        }
        assert(a@.skip(i as int).len() == n - i);
        assert(b@.skip(i as int).len() == m - i);
    }
    if n < m {
        proof {
            assert(a@.len() != b@.len());
        }
        Comparison::Less
    } else if m < n {
        proof {
            assert(a@.len() != b@.len());
        }
        Comparison::Greater
    } else {
        proof {
            assert(a@ =~= b@);
            lemma_text_lt_irreflexive(a@);
        }
        Comparison::Equal
    }
}

fn compare_part(a: &SortKeyPart, b: &SortKeyPart) -> (r: Comparison)
    ensures
        r == Comparison::Less <==> part_lt(part_view(*a), part_view(*b)),
        r == Comparison::Equal <==> part_view(*a) == part_view(*b),
        r == Comparison::Greater <==> part_lt(part_view(*b), part_view(*a)),
{
    match (a, b) {
        (SortKeyPart::Num(x), SortKeyPart::Num(y)) => {
            if *x < *y {
                Comparison::Less
            } else if *x == *y {
                Comparison::Equal
            } else {
                Comparison::Greater
            }
        },
        (SortKeyPart::Text(x), SortKeyPart::Text(y)) => compare_text(x, y),
        (SortKeyPart::Num(_), SortKeyPart::Text(_)) => Comparison::Less,
        (SortKeyPart::Text(_), SortKeyPart::Num(_)) => Comparison::Greater,
    }
}

/// Compares two composite keys lexicographically.
pub fn compare_key(a: &Vec<SortKeyPart>, b: &Vec<SortKeyPart>) -> (r: Comparison)
    ensures
        r == Comparison::Less <==> key_lt(key_view(a@), key_view(b@)),
        r == Comparison::Equal <==> key_view(a@) == key_view(b@),
        r == Comparison::Greater <==> key_lt(key_view(b@), key_view(a@)),
{
    let ghost av = key_view(a@);
    let ghost bv = key_view(b@);
    let n = a.len();
    let m = b.len();
    let mut i: usize = 0;
    proof {
        assert(av.skip(0) =~= av);
        assert(bv.skip(0) =~= bv);
        assert(av.subrange(0, 0) =~= bv.subrange(0, 0));
    }
    while i < n && i < m
        invariant
            av == key_view(a@),
            bv == key_view(b@),
            n == a@.len(),
            m == b@.len(),
            av.len() == n,
            bv.len() == m,
            i <= n,
            i <= m,
            av.subrange(0, i as int) == bv.subrange(0, i as int),
            key_lt(av, bv) == key_lt(av.skip(i as int), bv.skip(i as int)),
            key_lt(bv, av) == key_lt(bv.skip(i as int), av.skip(i as int)),
        decreases n - i,
    {
        let c = compare_part(&a[i], &b[i]);
        proof {
            assert(av[i as int] == part_view(a@[i as int]));
            assert(bv[i as int] == part_view(b@[i as int]));
            assert(av.skip(i as int)[0] == av[i as int]);
            assert(bv.skip(i as int)[0] == bv[i as int]);
            assert(av.skip(i as int).drop_first() =~= av.skip(i + 1));
            assert(bv.skip(i as int).drop_first() =~= bv.skip(i + 1));
        }
        match c {
            Comparison::Less => {
                proof {
                    lemma_part_lt_irreflexive(av[i as int]);
                    assert(av[i as int] != bv[i as int]);
                    assert(av != bv);
                    lemma_key_lt_asymmetric(av, bv);
                }
                return Comparison::Less;
            },
            Comparison::Greater => {
                proof {
                    lemma_part_lt_irreflexive(av[i as int]);
                    assert(av[i as int] != bv[i as int]);
                    assert(av != bv);
                    lemma_key_lt_asymmetric(bv, av);
                }
                return Comparison::Greater;
            },
            Comparison::Equal => {},
        }
        proof {
            assert(av.subrange(0, i + 1) =~= av.subrange(0, i as int).push(av[i as int]));
            assert(bv.subrange(0, i + 1) =~= bv.subrange(0, i as int).push(bv[i as int]));
        }
        i = i + 1;
    }
    proof {
        if i == n {
            assert(av.subrange(0, i as int) =~= av);
        }
        if i == m {
            assert(bv.subrange(0, i as int) =~= bv);
        }
        assert(av.skip(i as int).len() == n - i);
        assert(bv.skip(i as int).len() == m - i);
    }
    if n < m {
        proof {
            assert(av.len() != bv.len());
        }
        Comparison::Less
    } else if m < n {
        proof {
            assert(av.len() != bv.len());
        }
        Comparison::Greater
    } else {
        proof {
            assert(av =~= bv);
            lemma_key_lt_irreflexive(av);
        }
        Comparison::Equal
    }
}

pub open spec fn keys_view(keys: Seq<Vec<SortKeyPart>>) -> Seq<Seq<SortKeyView>> {
    keys.map_values(|k: Vec<SortKeyPart>| key_view(k@))
}

/// Pushing a key extends the keys' view by its view.
pub proof fn lemma_keys_view_push(keys: Seq<Vec<SortKeyPart>>, k: Vec<SortKeyPart>)
    ensures
        keys_view(keys.push(k)) == keys_view(keys).push(key_view(k@)),
{
    assert(keys_view(keys.push(k)) =~= keys_view(keys).push(key_view(k@)));
}

/// The stable order of the keys: every position once, ordered by key and, for
/// equal keys, by original position.
pub fn stable_order(keys: &Vec<Vec<SortKeyPart>>) -> (perm: Vec<usize>)
    ensures
        is_stable_order(keys_view(keys@), perm@),
{
    let ghost ks = keys_view(keys@);
    let mut perm: Vec<usize> = Vec::new();
    let n = keys.len();
    for i in 0..n
        invariant
            n == keys@.len(),
            ks == keys_view(keys@),
            ks.len() == n,
            perm@.len() == i,
            forall|k: int| 0 <= k < perm@.len() ==> (#[trigger] perm@[k]) < i,
            forall|a: int, b: int|
                0 <= a < b < perm@.len() ==> before(ks, #[trigger] perm@[a], #[trigger] perm@[b]),
    {
        let mut pos = perm.len();
        while pos > 0 && compare_key(&keys[i], &keys[perm[pos - 1]]) == Comparison::Less
            invariant
                n == keys@.len(),
                ks == keys_view(keys@),
                ks.len() == n,
                i < n,
                perm@.len() == i,
                pos <= perm@.len(),
                forall|k: int| 0 <= k < perm@.len() ==> (#[trigger] perm@[k]) < i,
                forall|k: int|
                    pos <= k < perm@.len() ==> key_lt(ks[i as int], ks[#[trigger] perm@[k] as int]),
            decreases pos,
        {
            pos = pos - 1;
        }
        let ghost old_perm = perm@;
        proof {
            if pos > 0 {
                // The element just before the insertion point is not greater.
                let e = old_perm[pos - 1];
                assert(!key_lt(ks[i as int], ks[e as int]));
                lemma_key_lt_total(ks[i as int], ks[e as int]);
                assert(before(ks, e, i));
            }
        }
        perm.insert(pos, i);
        proof {
            assert(perm@ == old_perm.insert(pos as int, i));
            assert forall|k: int| 0 <= k < perm@.len() implies (#[trigger] perm@[k]) < i + 1 by {
                if k < pos {
                    assert(perm@[k] == old_perm[k]);
                } else if k > pos {
                    assert(perm@[k] == old_perm[k - 1]);
                }
            }
            assert forall|a: int, b: int| 0 <= a < b < perm@.len() implies before(
                ks,
                #[trigger] perm@[a],
                #[trigger] perm@[b],
            ) by {
                if b < pos {
                    assert(perm@[a] == old_perm[a] && perm@[b] == old_perm[b]);
                } else if a > pos {
                    assert(perm@[a] == old_perm[a - 1] && perm@[b] == old_perm[b - 1]);
                } else if a == pos {
                    assert(perm@[b] == old_perm[b - 1]);
                    assert(key_lt(ks[i as int], ks[old_perm[b - 1] as int]));
                } else if b == pos {
                    assert(perm@[a] == old_perm[a]);
                    let e = old_perm[pos - 1];
                    if a < pos - 1 {
                        assert(before(ks, old_perm[a], e));
                        lemma_before_transitive(ks, old_perm[a], e, i);
                    }
                } else {
                    // a < pos < b
                    assert(perm@[a] == old_perm[a] && perm@[b] == old_perm[b - 1]);
                    if a < b - 1 {
                        assert(before(ks, old_perm[a], old_perm[b - 1]));
                    } else {
                        assert(false);
                    }
                }
            }
        }
    }
    perm
}


// ─── sorted distinct texts ───────────────────────────────────────────────────

/// Strictly increasing in text order, hence free of repeats.
pub open spec fn strictly_sorted(s: Seq<Seq<char>>) -> bool {
    forall|i: int, j: int| 0 <= i < j < s.len() ==> text_lt(#[trigger] s[i], #[trigger] s[j])
}

/// Some string among the first `n` of `s` has the text `t`.
pub open spec fn has_text(s: Seq<String>, n: int, t: Seq<char>) -> bool {
    exists|j: int| 0 <= j < n && (#[trigger] s[j])@ == t
}

/// Inserting `c` at `pos` keeps a strictly increasing key list increasing
/// when everything before `pos` is smaller and the key at `pos` is larger.
proof fn lemma_insert_sorted(old_keys: Seq<Vec<char>>, pos: int, c: Vec<char>)
    requires
        0 <= pos <= old_keys.len(),
        forall|a: int, b: int| 0 <= a < b < old_keys.len() ==> text_lt(#[trigger] old_keys[a]@, #[trigger] old_keys[b]@),
        forall|a: int| 0 <= a < pos ==> text_lt(#[trigger] old_keys[a]@, c@),
        pos < old_keys.len() ==> text_lt(c@, old_keys[pos]@),
    ensures
        forall|a: int, b: int|
            0 <= a < b < old_keys.insert(pos, c).len() ==> text_lt(
                #[trigger] old_keys.insert(pos, c)[a]@,
                #[trigger] old_keys.insert(pos, c)[b]@,
            ),
{
    let keys = old_keys.insert(pos, c);
    assert forall|a: int, b: int| 0 <= a < b < keys.len() implies text_lt(#[trigger] keys[a]@, #[trigger] keys[b]@) by {
        if b < pos {
            assert(keys[a] == old_keys[a] && keys[b] == old_keys[b]);
        } else if a > pos {
            assert(keys[a] == old_keys[a - 1] && keys[b] == old_keys[b - 1]);
        } else if a == pos {
            assert(keys[b] == old_keys[b - 1]);
            if b - 1 > pos {
                assert(text_lt(old_keys[pos]@, old_keys[b - 1]@));
                lemma_text_lt_transitive(c@, old_keys[pos]@, old_keys[b - 1]@);
            }
        } else if b == pos {
            assert(keys[a] == old_keys[a]);
        } else {
            assert(keys[a] == old_keys[a] && keys[b] == old_keys[b - 1]);
            assert(text_lt(old_keys[a]@, c@));
            if b - 1 > pos {
                assert(text_lt(old_keys[pos]@, old_keys[b - 1]@));
                lemma_text_lt_transitive(c@, old_keys[pos]@, old_keys[b - 1]@);
            }
            lemma_text_lt_transitive(old_keys[a]@, c@, old_keys[b - 1]@);
        }
    }
}

/// The texts of `v`, sorted in text order with repeats removed (what a sort
/// followed by a dedup gives).
pub fn sorted_unique_strings(v: &Vec<String>) -> (r: Vec<String>)
    ensures
        strictly_sorted(r@.map_values(|s: String| s@)),
        forall|i: int| 0 <= i < v@.len() ==> has_text(r@, r@.len() as int, #[trigger] v@[i]@),
        forall|j: int| 0 <= j < r@.len() ==> has_text(v@, v@.len() as int, #[trigger] r@[j]@),
{
    let mut out: Vec<String> = Vec::new();
    let mut keys: Vec<Vec<char>> = Vec::new();
    for i in 0..v.len()
        invariant
            out@.len() == keys@.len(),
            forall|j: int| 0 <= j < out@.len() ==> (#[trigger] out@[j])@ == keys@[j]@,
            forall|a: int, b: int| 0 <= a < b < keys@.len() ==> text_lt(#[trigger] keys@[a]@, #[trigger] keys@[b]@),
            forall|k: int| 0 <= k < i ==> has_text(out@, out@.len() as int, #[trigger] v@[k]@),
            forall|j: int| 0 <= j < out@.len() ==> has_text(v@, i as int, #[trigger] out@[j]@),
    {
        let c = chars_of(v[i].as_str());
        let mut pos: usize = 0;
        while pos < keys.len() && compare_text(&keys[pos], &c) == Comparison::Less
            invariant
                pos <= keys@.len(),
                forall|a: int| 0 <= a < pos ==> text_lt(#[trigger] keys@[a]@, c@),
            decreases keys.len() - pos,
        {
            pos = pos + 1;
        }
        let ghost old_keys = keys@;
        let ghost old_out = out@;
        let present = pos < keys.len() && compare_text(&keys[pos], &c) == Comparison::Equal;
        if present {
            proof {
                assert(out@[pos as int]@ == v@[i as int]@);
                assert forall|k: int| 0 <= k < i + 1 implies has_text(out@, out@.len() as int, #[trigger] v@[k]@) by {
                    if k == i {
                        assert(out@[pos as int]@ == v@[k]@);
                    }
                }
                assert forall|j: int| 0 <= j < out@.len() implies has_text(v@, i + 1, #[trigger] out@[j]@) by {
                    let k = choose|k: int| 0 <= k < i && (#[trigger] v@[k])@ == out@[j]@;
                    assert(v@[k]@ == out@[j]@);
                }
            }
        } else {
            proof {
                if pos < old_keys.len() {
                    lemma_text_lt_total(old_keys[pos as int]@, c@);
                }
                lemma_insert_sorted(old_keys, pos as int, c);
            }
            keys.insert(pos, c);
            out.insert(pos, v[i].clone());
            proof {
                assert(keys@ == old_keys.insert(pos as int, c));
                assert(out@ == old_out.insert(pos as int, v@[i as int]));
                assert forall|j: int| 0 <= j < out@.len() implies (#[trigger] out@[j])@ == keys@[j]@ by {
                    if j < pos {
                        assert(out@[j] == old_out[j] && keys@[j] == old_keys[j]);
                    } else if j > pos {
                        assert(out@[j] == old_out[j - 1] && keys@[j] == old_keys[j - 1]);
                    }
                }
                assert forall|k: int| 0 <= k < i + 1 implies has_text(out@, out@.len() as int, #[trigger] v@[k]@) by {
                    if k == i {
                        assert(out@[pos as int]@ == v@[k]@);
                    } else {
                        let j0 = choose|j: int| 0 <= j < old_out.len() && (#[trigger] old_out[j])@ == v@[k]@;
                        if j0 < pos {
                            assert(out@[j0] == old_out[j0]);
                        } else {
                            assert(out@[j0 + 1] == old_out[j0]);
                        }
                    }
                }
                assert forall|j: int| 0 <= j < out@.len() implies has_text(v@, i + 1, #[trigger] out@[j]@) by {
                    if j == pos {
                        assert(v@[i as int]@ == out@[j]@);
                    } else {
                        let jj = if j < pos { j } else { j - 1 };
                        assert(out@[j] == old_out[jj]);
                        let k = choose|k: int| 0 <= k < i && (#[trigger] v@[k])@ == old_out[jj]@;
                        assert(v@[k]@ == out@[j]@);
                    }
                }
            }
        }
    }
    proof {
        let r = out@.map_values(|s: String| s@);
        assert forall|a: int, b: int| 0 <= a < b < r.len() implies text_lt(#[trigger] r[a], #[trigger] r[b]) by {
            assert(r[a] == out@[a]@ && r[b] == out@[b]@);
            assert(keys@[a]@ == out@[a]@ && keys@[b]@ == out@[b]@);
        }
    }
    out
}

/// A strictly sorted list of texts holds no text twice.
pub proof fn lemma_strictly_sorted_no_dups(s: Seq<Seq<char>>)
    requires
        strictly_sorted(s),
    ensures
        s.no_duplicates(),
{
    assert forall|i: int, j: int| 0 <= i < s.len() && 0 <= j < s.len() && i != j implies s[i] != s[j] by {
        if i < j {
            assert(text_lt(s[i], s[j]));
            if s[i] == s[j] {
                lemma_text_lt_irreflexive(s[i]);
            }
        } else {
            assert(text_lt(s[j], s[i]));
            if s[i] == s[j] {
                lemma_text_lt_irreflexive(s[j]);
            }
        }
    }
}

} // verus!

//! The order of texts (Rust's `String` comparison) and a stable sort by a
//! text key.
use vstd::prelude::*;

verus! {

/// Whether `a` comes no later than `b` in the lexicographic order of their
/// characters by code point; this is the order of Rust's `str` comparison,
/// which compares the UTF-8 bytes.
pub open spec fn text_le(a: Seq<char>, b: Seq<char>) -> bool
    decreases a.len(),
{
    if a.len() == 0 {
        true
    } else if b.len() == 0 {
        false
    } else if a[0] != b[0] {
        (a[0] as u32) < (b[0] as u32)
    } else {
        text_le(a.drop_first(), b.drop_first())
    }
}

/// Every text comes no later than itself.
pub proof fn lemma_text_le_reflexive(a: Seq<char>)
    ensures
        text_le(a, a),
    decreases a.len(),
{
    if a.len() > 0 {
        lemma_text_le_reflexive(a.drop_first());
    }
}

/// Of two texts, one comes no later than the other.
pub proof fn lemma_text_le_total(a: Seq<char>, b: Seq<char>)
    ensures
        text_le(a, b) || text_le(b, a),
    decreases a.len(),
{
    if a.len() > 0 && b.len() > 0 && a[0] == b[0] {
        lemma_text_le_total(a.drop_first(), b.drop_first());
    }
    if a.len() > 0 && b.len() > 0 && a[0] != b[0] {
        vstd::utf8::char_u32_cast(a[0], a[0] as u32);
        vstd::utf8::char_u32_cast(b[0], b[0] as u32);
    }
}

/// Two texts that each come no later than the other are equal.
pub proof fn lemma_text_le_antisymmetric(a: Seq<char>, b: Seq<char>)
    requires
        text_le(a, b),
        text_le(b, a),
    ensures
        a == b,
    decreases a.len(),
{
    if a.len() > 0 && b.len() > 0 {
        if a[0] == b[0] {
            lemma_text_le_antisymmetric(a.drop_first(), b.drop_first());
            assert(a =~= seq![a[0]] + a.drop_first());
            assert(b =~= seq![b[0]] + b.drop_first());
        }
    }
    if a.len() == 0 {
        assert(b.len() == 0);
        assert(a =~= b);
    }
}

/// The order of texts is transitive.
pub proof fn lemma_text_le_transitive(a: Seq<char>, b: Seq<char>, c: Seq<char>)
    requires
        text_le(a, b),
        text_le(b, c),
    ensures
        text_le(a, c),
    decreases a.len(),
{
    if a.len() > 0 && b.len() > 0 && c.len() > 0 {
        if a[0] == b[0] && b[0] == c[0] {
            lemma_text_le_transitive(a.drop_first(), b.drop_first(), c.drop_first());
        }
    }
}

/// Whether `order` lists each of the positions `0..n` exactly once.
pub open spec fn is_permutation(order: Seq<usize>, n: nat) -> bool {
    &&& order.len() == n
    &&& forall|i: int| 0 <= i < order.len() ==> #[trigger] order[i] < n
    &&& forall|i: int, j: int| 0 <= i < j < order.len() ==> order[i] != order[j]
}

/// Whether `order` lists positions of `keys` by their keys, positions with
/// equal keys in the order in which they come: the result of a stable sort.
pub open spec fn is_stable_order(order: Seq<usize>, keys: Seq<Seq<char>>) -> bool {
    &&& is_permutation(order, keys.len())
    &&& forall|i: int, j: int|
        0 <= i < j < order.len() ==> text_le(keys[#[trigger] order[i] as int], keys[#[trigger] order[j] as int])
    &&& forall|i: int, j: int|
        0 <= i < j < order.len() && keys[#[trigger] order[i] as int] == keys[#[trigger] order[j] as int]
            ==> order[i] < order[j]
}

/// Whether position `x` goes before position `y` in a stable sort by `keys`.
pub open spec fn goes_before(keys: Seq<Seq<char>>, x: usize, y: usize) -> bool {
    if keys[x as int] == keys[y as int] {
        x < y
    } else {
        text_le(keys[x as int], keys[y as int])
    }
}

proof fn lemma_goes_before_asymmetric(keys: Seq<Seq<char>>, x: usize, y: usize)
    requires
        goes_before(keys, x, y),
    ensures
        !goes_before(keys, y, x),
{
    if keys[x as int] != keys[y as int] && text_le(keys[y as int], keys[x as int]) {
        lemma_text_le_antisymmetric(keys[x as int], keys[y as int]);
    }
}

proof fn lemma_stable_order_increasing(order: Seq<usize>, keys: Seq<Seq<char>>, i: int, j: int)
    requires
        is_stable_order(order, keys),
        0 <= i < j < order.len(),
    ensures
        goes_before(keys, order[i], order[j]),
{
    if keys[order[i] as int] == keys[order[j] as int] {
        assert(order[i] < order[j]);
    } else {
        assert(text_le(keys[order[i] as int], keys[order[j] as int]));
    }
}

/// A permutation of `0..n` holds every position below `n`.
proof fn lemma_permutation_holds_all(order: Seq<usize>, n: nat, x: usize)
    requires
        is_permutation(order, n),
        x < n,
    ensures
        order.contains(x),
{
    let ints = order.map_values(|v: usize| v as int);
    assert(ints.no_duplicates()) by {
        assert forall|i: int, j: int| 0 <= i < ints.len() && 0 <= j < ints.len() && i != j implies ints[i]
            != ints[j] by {
            if i < j {
                assert(order[i] != order[j]);
            } else {
                assert(order[j] != order[i]);
            }
        }
    }
    ints.unique_seq_to_set();
    vstd::set_lib::lemma_int_range(0, n as int);
    let range = vstd::set_lib::set_int_range(0, n as int);
    assert(ints.to_set().subset_of(range)) by {
        assert forall|v: int| ints.to_set().contains(v) implies range.contains(v) by {
            let k = choose|k: int| 0 <= k < ints.len() && ints[k] == v;
            assert(order[k] < n);
        }
    }
    vstd::set_lib::lemma_subset_equality(ints.to_set(), range);
    assert(range.contains(x as int));
    assert(ints.to_set().contains(x as int));
    let k = choose|k: int| 0 <= k < ints.len() && ints[k] == x as int;
    assert(order[k] == x);
}

/// Two sequences of distinct positions with the same members, each listing
/// them in the order [`goes_before`], are equal.
proof fn lemma_increasing_same_members_equal(s1: Seq<usize>, s2: Seq<usize>, keys: Seq<Seq<char>>)
    requires
        s1.len() == s2.len(),
        forall|x: usize| s1.contains(x) <==> s2.contains(x),
        forall|i: int, j: int| 0 <= i < j < s1.len() ==> goes_before(keys, #[trigger] s1[i], #[trigger] s1[j]),
        forall|i: int, j: int| 0 <= i < j < s2.len() ==> goes_before(keys, #[trigger] s2[i], #[trigger] s2[j]),
    ensures
        s1 == s2,
    decreases s1.len(),
{
    if s1.len() == 0 {
        assert(s1 =~= s2);
    } else {
        assert(s1.contains(s1[0]));
        let p = choose|p: int| 0 <= p < s2.len() && s2[p] == s1[0];
        assert(s2.contains(s2[0]));
        let q = choose|q: int| 0 <= q < s1.len() && s1[q] == s2[0];
        if p > 0 {
            assert(goes_before(keys, s2[0], s2[p]));
            if q == 0 {
                lemma_goes_before_asymmetric(keys, s2[0], s2[p]);
            } else {
                assert(goes_before(keys, s1[0], s1[q]));
                lemma_goes_before_asymmetric(keys, s2[0], s2[p]);
            }
        }
        assert(s1[0] == s2[0]);
        let t1 = s1.drop_first();
        let t2 = s2.drop_first();
        assert forall|x: usize| t1.contains(x) <==> t2.contains(x) by {
            if t1.contains(x) {
                let k = choose|k: int| 0 <= k < t1.len() && t1[k] == x;
                assert(s1[k + 1] == x);
                assert(goes_before(keys, s1[0], s1[k + 1]));
                lemma_goes_before_asymmetric(keys, s1[0], s1[k + 1]);
                assert(s2.contains(x));
                let m = choose|m: int| 0 <= m < s2.len() && s2[m] == x;
                assert(m != 0);
                assert(t2[m - 1] == x);
            }
            if t2.contains(x) {
                let k = choose|k: int| 0 <= k < t2.len() && t2[k] == x;
                assert(s2[k + 1] == x);
                assert(goes_before(keys, s2[0], s2[k + 1]));
                lemma_goes_before_asymmetric(keys, s2[0], s2[k + 1]);
                assert(s1.contains(x));
                let m = choose|m: int| 0 <= m < s1.len() && s1[m] == x;
                assert(m != 0);
                assert(t1[m - 1] == x);
            }
        }
        assert forall|i: int, j: int| 0 <= i < j < t1.len() implies goes_before(keys, #[trigger] t1[i], #[trigger] t1[j]) by {
            assert(goes_before(keys, s1[i + 1], s1[j + 1]));
        }
        assert forall|i: int, j: int| 0 <= i < j < t2.len() implies goes_before(keys, #[trigger] t2[i], #[trigger] t2[j]) by {
            assert(goes_before(keys, s2[i + 1], s2[j + 1]));
        }
        lemma_increasing_same_members_equal(t1, t2, keys);
        assert(s1 =~= seq![s1[0]] + t1);
        assert(s2 =~= seq![s2[0]] + t2);
    }
}

/// A stable sort has one result: two orders that both list the positions of
/// `keys` stably sorted are the same order.
pub proof fn law_stable_order_unique(o1: Seq<usize>, o2: Seq<usize>, keys: Seq<Seq<char>>)
    requires
        is_stable_order(o1, keys),
        is_stable_order(o2, keys),
    ensures
        o1 == o2,
{
    assert forall|x: usize| o1.contains(x) <==> o2.contains(x) by {
        if o1.contains(x) {
            let k = choose|k: int| 0 <= k < o1.len() && o1[k] == x;
            assert(o1[k] < keys.len());
            lemma_permutation_holds_all(o2, keys.len(), x);
        }
        if o2.contains(x) {
            let k = choose|k: int| 0 <= k < o2.len() && o2[k] == x;
            assert(o2[k] < keys.len());
            lemma_permutation_holds_all(o1, keys.len(), x);
        }
    }
    assert forall|i: int, j: int| 0 <= i < j < o1.len() implies goes_before(keys, #[trigger] o1[i], #[trigger] o1[j]) by {
        lemma_stable_order_increasing(o1, keys, i, j);
    }
    assert forall|i: int, j: int| 0 <= i < j < o2.len() implies goes_before(keys, #[trigger] o2[i], #[trigger] o2[j]) by {
        lemma_stable_order_increasing(o2, keys, i, j);
    }
    lemma_increasing_same_members_equal(o1, o2, keys);
}

/// Whether `a` comes no later than `b`.
pub fn text_le_chars(a: &Vec<char>, b: &Vec<char>) -> (r: bool)
    ensures
        r == text_le(a@, b@),
{
    let mut i: usize = 0;
    assert(a@.skip(0) =~= a@ && b@.skip(0) =~= b@);
    while i < a.len()
        invariant
            i <= a.len(),
            i <= b.len(),
            a@.take(i as int) == b@.take(i as int),
            text_le(a@, b@) == text_le(a@.skip(i as int), b@.skip(i as int)),
        decreases a.len() - i,
    {
        if i == b.len() {
            return false;
        }
        let ghost sa = a@.skip(i as int);
        let ghost sb = b@.skip(i as int);
        assert(sa[0] == a@[i as int] && sb[0] == b@[i as int]);
        if a[i] != b[i] {
            return (a[i] as u32) < (b[i] as u32);
        }
        assert(sa.drop_first() =~= a@.skip(i + 1));
        assert(sb.drop_first() =~= b@.skip(i + 1));
        assert(a@.take(i + 1) =~= a@.take(i as int).push(a@[i as int]));
        assert(b@.take(i + 1) =~= b@.take(i as int).push(b@[i as int]));
        i += 1;
    }
    true
}

/// The positions of `keys` in stably sorted order: by key, positions with
/// equal keys in the order in which they come.
pub fn stable_order(keys: &Vec<Vec<char>>) -> (order: Vec<usize>)
    ensures
        is_stable_order(order@, keys@.map_values(|k: Vec<char>| k@)),
{
    let ghost ks = keys@.map_values(|k: Vec<char>| k@);
    let mut order: Vec<usize> = Vec::new();
    let mut i: usize = 0;
    while i < keys.len()
        invariant
            i <= keys.len(),
            ks == keys@.map_values(|k: Vec<char>| k@),
            is_stable_order(order@, ks.take(i as int)),
            forall|a: int| 0 <= a < order.len() ==> #[trigger] order@[a] < i,
        decreases keys.len() - i,
    {
        let ghost old_order = order@;
        let mut p = order.len();
        while p > 0 && !text_le_chars(&keys[order[p - 1]], &keys[i])
            invariant
                p <= order.len(),
                order@ == old_order,
                i < keys.len(),
                ks == keys@.map_values(|k: Vec<char>| k@),
                forall|a: int| 0 <= a < order.len() ==> #[trigger] order@[a] < i,
                forall|q: int| p <= q < order.len() ==> !text_le(ks[#[trigger] order@[q] as int], ks[i as int]),
            decreases p,
        {
            p -= 1;
        }
        proof {
            assert(ks[i as int] == keys@[i as int]@);
            if p > 0 {
                assert(text_le(ks[order@[p - 1] as int], ks[i as int]));
            }
        }
        order.insert(p, i);
        proof {
            let new_keys = ks.take(i + 1);
            assert forall|a: int| 0 <= a < order.len() implies #[trigger] order@[a] < i + 1 by {
                if a < p {
                    assert(order@[a] == old_order[a]);
                } else if a > p {
                    assert(order@[a] == old_order[a - 1]);
                }
            }
            assert forall|a: int| 0 <= a < old_order.len() implies new_keys[#[trigger] old_order[a] as int]
                == ks[old_order[a] as int] by {}
            assert forall|a: int, b: int| 0 <= a < b < order.len() implies order@[a] != order@[b] by {
                if a < p && b < p {
                    assert(order@[a] == old_order[a] && order@[b] == old_order[b]);
                } else if a < p && b == p {
                    assert(order@[a] == old_order[a]);
                } else if a < p && b > p {
                    assert(order@[a] == old_order[a] && order@[b] == old_order[b - 1]);
                } else if a == p {
                    assert(order@[b] == old_order[b - 1]);
                } else {
                    assert(order@[a] == old_order[a - 1] && order@[b] == old_order[b - 1]);
                }
            }
            assert forall|a: int, b: int| 0 <= a < b < order.len() implies text_le(
                new_keys[#[trigger] order@[a] as int],
                new_keys[#[trigger] order@[b] as int],
            ) by {
                if a < p && b < p {
                    assert(order@[a] == old_order[a] && order@[b] == old_order[b]);
                    assert(text_le(ks.take(i as int)[old_order[a] as int], ks.take(i as int)[old_order[b] as int]));
                } else if a < p && b == p {
                    assert(order@[a] == old_order[a]);
                    if a < p - 1 {
                        assert(text_le(
                            ks.take(i as int)[old_order[a] as int],
                            ks.take(i as int)[old_order[p - 1] as int],
                        ));
                        lemma_text_le_transitive(ks[old_order[a] as int], ks[old_order[p - 1] as int], ks[i as int]);
                    }
                } else if a < p && b > p {
                    assert(order@[a] == old_order[a] && order@[b] == old_order[b - 1]);
                    assert(text_le(ks.take(i as int)[old_order[a] as int], ks.take(i as int)[old_order[b - 1] as int]));
                } else if a == p {
                    assert(order@[b] == old_order[b - 1]);
                    assert(!text_le(ks[old_order[b - 1] as int], ks[i as int]));
                    lemma_text_le_total(ks[old_order[b - 1] as int], ks[i as int]);
                } else {
                    assert(order@[a] == old_order[a - 1] && order@[b] == old_order[b - 1]);
                    assert(text_le(ks.take(i as int)[old_order[a - 1] as int], ks.take(i as int)[old_order[b - 1] as int]));
                }
            }
            assert forall|a: int, b: int|
                0 <= a < b < order.len() && new_keys[#[trigger] order@[a] as int] == new_keys[#[trigger] order@[b] as int]
                implies order@[a] < order@[b] by {
                if a < p && b < p {
                    assert(order@[a] == old_order[a] && order@[b] == old_order[b]);
                    assert(ks.take(i as int)[old_order[a] as int] == ks.take(i as int)[old_order[b] as int]);
                } else if a < p && b == p {
                    assert(order@[a] == old_order[a]);
                } else if a < p && b > p {
                    assert(order@[a] == old_order[a] && order@[b] == old_order[b - 1]);
                    assert(ks.take(i as int)[old_order[a] as int] == ks.take(i as int)[old_order[b - 1] as int]);
                } else if a == p {
                    assert(order@[b] == old_order[b - 1]);
                    assert(!text_le(ks[old_order[b - 1] as int], ks[i as int]));
                    lemma_text_le_reflexive(ks[i as int]);
                } else {
                    assert(order@[a] == old_order[a - 1] && order@[b] == old_order[b - 1]);
                    assert(ks.take(i as int)[old_order[a - 1] as int] == ks.take(i as int)[old_order[b - 1] as int]);
                }
            }
        }
        i += 1;
    }
    assert(ks.take(keys.len() as int) =~= ks);
    order
}

} // verus!

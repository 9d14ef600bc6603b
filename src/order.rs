use vstd::prelude::*;

use crate::text::{chars_of, lower_code, lower_code_of};

verus! {

/// Lexicographic order of `a` before `b`, comparing characters by their ASCII
/// lower-cased codes; a proper prefix comes first.
pub open spec fn ci_less(a: Seq<char>, b: Seq<char>) -> bool
    decreases a.len(),
{
    if b.len() == 0 {
        false
    } else if a.len() == 0 {
        true
    } else if lower_code(a[0]) != lower_code(b[0]) {
        lower_code(a[0]) < lower_code(b[0])
    } else {
        ci_less(a.drop_first(), b.drop_first())
    }
}

/// Not-before is transitive: `ci_less` is a strict weak order.
pub proof fn lemma_not_less_trans(a: Seq<char>, b: Seq<char>, c: Seq<char>)
    requires
        !ci_less(b, a),
        !ci_less(c, b),
    ensures
        !ci_less(c, a),
    decreases a.len(),
{
    if a.len() > 0 && b.len() > 0 && c.len() > 0 && lower_code(a[0]) == lower_code(b[0])
        && lower_code(b[0]) == lower_code(c[0]) {
        lemma_not_less_trans(a.drop_first(), b.drop_first(), c.drop_first());
    }
}

pub proof fn lemma_less_asym(a: Seq<char>, b: Seq<char>)
    requires
        ci_less(a, b),
    ensures
        !ci_less(b, a),
    decreases a.len(),
{
    if a.len() > 0 && b.len() > 0 && lower_code(a[0]) == lower_code(b[0]) {
        lemma_less_asym(a.drop_first(), b.drop_first());
    }
}

pub fn ci_less_chars(a: &Vec<char>, b: &Vec<char>) -> (r: bool)
    ensures
        r == ci_less(a@, b@),
{
    let mut i: usize = 0;
    assert(a@.skip(0) =~= a@ && b@.skip(0) =~= b@);
    while i < a.len() && i < b.len()
        invariant
            i <= a.len(),
            i <= b.len(),
            ci_less(a@, b@) == ci_less(a@.skip(i as int), b@.skip(i as int)),
        decreases a.len() - i,
    {
        let x = lower_code_of(a[i]);
        let y = lower_code_of(b[i]);
        if x != y {
            return x < y;
        }
        assert(a@.skip(i as int).drop_first() =~= a@.skip(i + 1));
        assert(b@.skip(i as int).drop_first() =~= b@.skip(i + 1));
        i = i + 1;
    }
    i < b.len()
}

/// Compares two strings ignoring ASCII case, as the order of their UTF-8 bytes
/// after ASCII lower-casing.
pub fn cmp_ignore_ascii_case(a: &str, b: &str) -> (r: std::cmp::Ordering)
    ensures
        r == std::cmp::Ordering::Less <==> ci_less(a@, b@),
        r == std::cmp::Ordering::Greater <==> ci_less(b@, a@),
{
    let x = chars_of(a);
    let y = chars_of(b);
    if ci_less_chars(&x, &y) {
        proof {
            lemma_less_asym(a@, b@);
        }
    }
    if ci_less_chars(&x, &y) {
        std::cmp::Ordering::Less
    } else if ci_less_chars(&y, &x) {
        std::cmp::Ordering::Greater
    } else {
        std::cmp::Ordering::Equal
    }
}

/// `p` lists each position of `keys` once, puts keys in order, and keeps
/// positions with equivalent keys in their original order.
pub open spec fn is_stable_order(keys: Seq<Seq<char>>, p: Seq<int>) -> bool {
    &&& p.len() == keys.len()
    &&& forall|i: int| 0 <= i < p.len() ==> 0 <= #[trigger] p[i] < keys.len()
    &&& forall|i: int, j: int| 0 <= i < j < p.len() ==> p[i] != p[j]
    &&& forall|i: int, j: int| 0 <= i < j < p.len() ==> !ci_less(keys[p[j]], keys[p[i]])
    &&& forall|i: int, j: int|
        0 <= i < j < p.len() && !ci_less(keys[p[i]], keys[p[j]]) ==> p[i] < p[j]
}

pub open spec fn positions(v: Seq<usize>) -> Seq<int> {
    v.map_values(|x: usize| x as int)
}

/// Positions of `keys` in stable order of the keys, ignoring ASCII case.
pub fn stable_order(keys: &Vec<Vec<char>>) -> (r: Vec<usize>)
    ensures
        is_stable_order(keys@.map_values(|k: Vec<char>| k@), positions(r@)),
{
    let ghost ks = keys@.map_values(|k: Vec<char>| k@);
    let mut order: Vec<usize> = Vec::new();
    let mut k: usize = 0;
    while k < keys.len()
        invariant
            ks == keys@.map_values(|k: Vec<char>| k@),
            k <= keys.len(),
            order.len() == k,
            forall|i: int| 0 <= i < k ==> #[trigger] order@[i] < k,
            forall|i: int, j: int| 0 <= i < j < k ==> order@[i] != order@[j],
            forall|i: int, j: int|
                0 <= i < j < k ==> !ci_less(ks[order@[j] as int], ks[order@[i] as int]),
            forall|i: int, j: int|
                0 <= i < j < k && !ci_less(ks[order@[i] as int], ks[order@[j] as int])
                    ==> order@[i] < order@[j],
        decreases keys.len() - k,
    {
        let mut pos: usize = k;
        while pos > 0 && ci_less_chars(&keys[k], &keys[order[pos - 1]])
            invariant
                ks == keys@.map_values(|k: Vec<char>| k@),
                k < keys.len(),
                order.len() == k,
                pos <= k,
                forall|i: int| 0 <= i < k ==> #[trigger] order@[i] < k,
                forall|j: int| pos <= j < k ==> ci_less(ks[k as int], ks[order@[j] as int]),
            decreases pos,
        {
            pos = pos - 1;
        }
        let ghost old_order = order@;
        assert forall|i: int| 0 <= i < pos implies !ci_less(
            ks[k as int],
            #[trigger] ks[old_order[i] as int],
        ) by {
            assert(!ci_less(ks[k as int], ks[old_order[pos - 1] as int]));
            if i < pos - 1 {
                lemma_not_less_trans(
                    ks[old_order[i] as int],
                    ks[old_order[pos - 1] as int],
                    ks[k as int],
                );
            }
        }
        order.insert(pos, k);
        assert(order@ == old_order.insert(pos as int, k));
        assert forall|i: int, j: int| 0 <= i < j < k + 1 implies !ci_less(
            ks[order@[j] as int],
            ks[order@[i] as int],
        ) && (!ci_less(ks[order@[i] as int], ks[order@[j] as int]) ==> order@[i] < order@[j]) by {
            if j < pos {
                assert(order@[i] == old_order[i] && order@[j] == old_order[j]);
            } else if j == pos {
                assert(order@[i] == old_order[i] && order@[j] == k);
                assert(!ci_less(ks[k as int], ks[old_order[i] as int]));
            } else if i < pos {
                assert(order@[i] == old_order[i] && order@[j] == old_order[j - 1]);
            } else if i == pos {
                assert(order@[i] == k && order@[j] == old_order[j - 1]);
                assert(ci_less(ks[k as int], ks[old_order[j - 1] as int]));
                lemma_less_asym(ks[k as int], ks[old_order[j - 1] as int]);
            } else {
                assert(order@[i] == old_order[i - 1] && order@[j] == old_order[j - 1]);
            }
        }
        assert forall|i: int| 0 <= i < k + 1 implies #[trigger] order@[i] < k + 1 by {
            if i < pos {
                assert(order@[i] == old_order[i]);
            } else if i > pos {
                assert(order@[i] == old_order[i - 1]);
            }
        }
        assert forall|i: int, j: int| 0 <= i < j < k + 1 implies order@[i] != order@[j] by {
            if j < pos {
                assert(order@[i] == old_order[i] && order@[j] == old_order[j]);
            } else if j == pos {
                assert(order@[i] == old_order[i]);
            } else if i < pos {
                assert(order@[i] == old_order[i] && order@[j] == old_order[j - 1]);
            } else if i == pos {
                assert(order@[j] == old_order[j - 1]);
            } else {
                assert(order@[i] == old_order[i - 1] && order@[j] == old_order[j - 1]);
            }
        }
        k = k + 1;
    }
    assert(positions(order@).len() == order@.len());
    order
}

} // verus!

//! Stable sorting by an integer key or by a text.

use vstd::prelude::*;

verus! {

/// `order` holds each position of `keys` exactly once.
pub open spec fn is_permutation(order: Seq<usize>, n: nat) -> bool {
    &&& order.len() == n
    &&& forall|k: int| 0 <= k < order.len() ==> (#[trigger] order[k]) < n
    &&& forall|a: int, b: int|
        0 <= a < order.len() && 0 <= b < order.len() && a != b ==> (#[trigger] order[a]) != (
        #[trigger] order[b])
}

/// `order` lists positions of `keys` by ascending key, positions with equal
/// keys in ascending order.
pub open spec fn is_stably_sorted(order: Seq<usize>, keys: Seq<i64>) -> bool {
    forall|a: int, b: int|
        0 <= a < b < order.len() ==> {
            let x = #[trigger] order[a];
            let y = #[trigger] order[b];
            0 <= x < keys.len() && 0 <= y < keys.len() && (keys[x as int] < keys[y as int] || (
            keys[x as int] == keys[y as int] && x < y))
        }
}

/// `order` is the stable ascending order of `keys`: a permutation of the
/// positions that is sorted by key and keeps positions with equal keys in
/// their order.
pub open spec fn is_stable_order(order: Seq<usize>, keys: Seq<i64>) -> bool {
    is_permutation(order, keys.len()) && is_stably_sorted(order, keys)
}

/// The positions of `keys` in stable ascending order of the keys.
pub fn stable_order(keys: &Vec<i64>) -> (order: Vec<usize>)
    ensures
        is_stable_order(order@, keys@),
{
    let mut order: Vec<usize> = Vec::new();
    let mut i: usize = 0;
    while i < keys.len()
        invariant
            i <= keys.len(),
            order@.len() == i,
            forall|k: int| 0 <= k < order@.len() ==> (#[trigger] order@[k]) < i,
            forall|a: int, b: int|
                0 <= a < order@.len() && 0 <= b < order@.len() && a != b ==> (
                #[trigger] order@[a]) != (#[trigger] order@[b]),
            is_stably_sorted(order@, keys@),
        decreases keys.len() - i,
    {
        let key = keys[i];
        let mut at: usize = order.len();
        while at > 0 && keys[order[at - 1]] > key
            invariant
                at <= order@.len(),
                order@.len() == i,
                i < keys.len(),
                key == keys@[i as int],
                forall|k: int| 0 <= k < order@.len() ==> (#[trigger] order@[k]) < i,
                forall|k: int| at <= k < order@.len() ==> keys@[(#[trigger] order@[k]) as int] > key,
            decreases at,
        {
            at -= 1;
        }
        let ghost before = order@;
        order.insert(at, i);
        proof {
            let after = order@;
            assert(after =~= before.insert(at as int, i));
            assert forall|k: int| 0 <= k < after.len() implies (#[trigger] after[k]) < i + 1 by {
                if k < at {
                    assert(after[k] == before[k]);
                } else if k > at {
                    assert(after[k] == before[k - 1]);
                }
            }
            assert forall|a: int, b: int|
                0 <= a < after.len() && 0 <= b < after.len() && a != b implies (
            #[trigger] after[a]) != (#[trigger] after[b]) by {
                let oa = if a < at { a } else { a - 1 };
                let ob = if b < at { b } else { b - 1 };
                if a != at {
                    assert(after[a] == before[oa]);
                }
                if b != at {
                    assert(after[b] == before[ob]);
                }
            }
            assert forall|a: int, b: int| 0 <= a < b < after.len() implies ({
                let x = #[trigger] after[a];
                let y = #[trigger] after[b];
                0 <= x < keys@.len() && 0 <= y < keys@.len() && (keys@[x as int] < keys@[y as int]
                    || (keys@[x as int] == keys@[y as int] && x < y))
            }) by {
                let oa = if a < at { a } else { a - 1 };
                let ob = if b < at { b } else { b - 1 };
                if a != at {
                    assert(after[a] == before[oa]);
                }
                if b != at {
                    assert(after[b] == before[ob]);
                }
                if a != at && b != at {
                    assert(oa < ob);
                    let x = before[oa];
                    let y = before[ob];
                } else if b == at {
                    assert(a < at);
                    if at > 0 && a < at - 1 {
                        let x = before[a];
                        let y = before[at - 1];
                    }
                    assert(keys@[before[at - 1] as int] <= key);
                }
            }
        }
        i += 1;
    }
    order
}

/// Whether the text `a` comes before the text `b` as strings are ordered: by
/// the code points of their characters from the left, a text before each
/// text that it starts.
pub open spec fn text_lt(a: Seq<char>, b: Seq<char>) -> bool
    decreases a.len(),
{
    if b.len() == 0 {
        false
    } else if a.len() == 0 {
        true
    } else if a[0] != b[0] {
        (a[0] as u32) < (b[0] as u32)
    } else {
        text_lt(a.skip(1), b.skip(1))
    }
}

/// Of two different texts one comes before the other.
pub proof fn lemma_text_order_total(a: Seq<char>, b: Seq<char>)
    ensures
        a == b || text_lt(a, b) || text_lt(b, a),
    decreases a.len(),
{
    if a.len() == 0 || b.len() == 0 {
        if a.len() == 0 && b.len() == 0 {
            assert(a =~= b);
        }
    } else if a[0] == b[0] {
        lemma_text_order_total(a.skip(1), b.skip(1));
        if a.skip(1) == b.skip(1) {
            assert(a =~= seq![a[0]] + a.skip(1));
            assert(b =~= seq![b[0]] + b.skip(1));
        }
    } else {
        vstd::utf8::char_u32_cast(a[0], a[0] as u32);
        vstd::utf8::char_u32_cast(b[0], b[0] as u32);
    }
}

/// What comes before a text comes before all that the text comes before.
pub proof fn lemma_text_order_transitive(a: Seq<char>, b: Seq<char>, c: Seq<char>)
    requires
        text_lt(a, b),
        text_lt(b, c),
    ensures
        text_lt(a, c),
    decreases a.len(),
{
    if a.len() > 0 && a[0] == b[0] && b[0] == c[0] {
        lemma_text_order_transitive(a.skip(1), b.skip(1), c.skip(1));
    }
}

/// Tells whether one text comes before another.
pub fn text_before(a: &Vec<char>, b: &Vec<char>) -> (r: bool)
    ensures
        r == text_lt(a@, b@),
{
    let mut i: usize = 0;
    assert(a@.skip(0) =~= a@ && b@.skip(0) =~= b@);
    while i < a.len() && i < b.len() && a[i] == b[i]
        invariant
            i <= a.len(),
            i <= b.len(),
            text_lt(a@, b@) == text_lt(a@.skip(i as int), b@.skip(i as int)),
        decreases a.len() - i,
    {
        proof {
            assert(a@.skip(i as int)[0] == a@[i as int]);
            assert(b@.skip(i as int)[0] == b@[i as int]);
            assert(a@.skip(i as int).skip(1) =~= a@.skip(i + 1));
            assert(b@.skip(i as int).skip(1) =~= b@.skip(i + 1));
        }
        i += 1;
    }
    proof {
        if i < a.len() {
            assert(a@.skip(i as int)[0] == a@[i as int]);
        }
        if i < b.len() {
            assert(b@.skip(i as int)[0] == b@[i as int]);
        }
    }
    if i >= b.len() {
        false
    } else if i >= a.len() {
        true
    } else {
        (a[i] as u32) < (b[i] as u32)
    }
}

/// The texts of a list of character vectors.
pub open spec fn key_texts(keys: Seq<Vec<char>>) -> Seq<Seq<char>> {
    Seq::new(keys.len(), |i: int| keys[i]@)
}

/// `order` lists positions of `keys` by ascending text, positions with the
/// same text in ascending order.
pub open spec fn is_stably_sorted_by_text(order: Seq<usize>, keys: Seq<Seq<char>>) -> bool {
    forall|a: int, b: int|
        0 <= a < b < order.len() ==> {
            let x = #[trigger] order[a];
            let y = #[trigger] order[b];
            0 <= x < keys.len() && 0 <= y < keys.len() && (text_lt(keys[x as int], keys[y as int])
                || (keys[x as int] == keys[y as int] && x < y))
        }
}

/// `order` is the stable ascending order of the texts `keys`.
pub open spec fn is_stable_text_order(order: Seq<usize>, keys: Seq<Seq<char>>) -> bool {
    is_permutation(order, keys.len()) && is_stably_sorted_by_text(order, keys)
}

/// The positions of `keys` in stable ascending order of the texts.
pub fn stable_text_order(keys: &Vec<Vec<char>>) -> (order: Vec<usize>)
    ensures
        is_stable_text_order(order@, key_texts(keys@)),
{
    let ghost texts = key_texts(keys@);
    let mut order: Vec<usize> = Vec::new();
    let mut i: usize = 0;
    while i < keys.len()
        invariant
            i <= keys.len(),
            texts == key_texts(keys@),
            order@.len() == i,
            forall|k: int| 0 <= k < order@.len() ==> (#[trigger] order@[k]) < i,
            forall|a: int, b: int|
                0 <= a < order@.len() && 0 <= b < order@.len() && a != b ==> (
                #[trigger] order@[a]) != (#[trigger] order@[b]),
            is_stably_sorted_by_text(order@, texts),
        decreases keys.len() - i,
    {
        let ghost key = texts[i as int];
        let mut at: usize = order.len();
        while at > 0 && text_before(&keys[i], &keys[order[at - 1]])
            invariant
                at <= order@.len(),
                order@.len() == i,
                i < keys.len(),
                texts == key_texts(keys@),
                key == texts[i as int],
                forall|k: int| 0 <= k < order@.len() ==> (#[trigger] order@[k]) < i,
                forall|k: int|
                    at <= k < order@.len() ==> text_lt(key, texts[(#[trigger] order@[k]) as int]),
            decreases at,
        {
            at -= 1;
        }
        let ghost before = order@;
        order.insert(at, i);
        proof {
            let after = order@;
            assert(after =~= before.insert(at as int, i));
            assert forall|k: int| 0 <= k < after.len() implies (#[trigger] after[k]) < i + 1 by {
                if k < at {
                    assert(after[k] == before[k]);
                } else if k > at {
                    assert(after[k] == before[k - 1]);
                }
            }
            assert forall|a: int, b: int|
                0 <= a < after.len() && 0 <= b < after.len() && a != b implies (
            #[trigger] after[a]) != (#[trigger] after[b]) by {
                let oa = if a < at { a } else { a - 1 };
                let ob = if b < at { b } else { b - 1 };
                if a != at {
                    assert(after[a] == before[oa]);
                }
                if b != at {
                    assert(after[b] == before[ob]);
                }
            }
            assert forall|a: int, b: int| 0 <= a < b < after.len() implies ({
                let x = #[trigger] after[a];
                let y = #[trigger] after[b];
                0 <= x < texts.len() && 0 <= y < texts.len() && (text_lt(
                    texts[x as int],
                    texts[y as int],
                ) || (texts[x as int] == texts[y as int] && x < y))
            }) by {
                let oa = if a < at { a } else { a - 1 };
                let ob = if b < at { b } else { b - 1 };
                if a != at {
                    assert(after[a] == before[oa]);
                }
                if b != at {
                    assert(after[b] == before[ob]);
                }
                if a != at && b != at {
                    assert(oa < ob);
                    let x = before[oa];
                    let y = before[ob];
                } else if b == at {
                    assert(a < at);
                    let last = texts[before[at - 1] as int];
                    let mine = texts[before[a] as int];
                    assert(!text_lt(key, last));
                    lemma_text_order_total(last, key);
                    if a < at - 1 {
                        let x = before[a];
                        let y = before[at - 1];
                        assert(text_lt(mine, last) || mine == last);
                        if text_lt(mine, last) && text_lt(last, key) {
                            lemma_text_order_transitive(mine, last, key);
                        }
                    }
                } else {
                    assert(b > at);
                    assert(text_lt(key, texts[before[b - 1] as int]));
                }
            }
        }
        i += 1;
    }
    order
}

} // verus!

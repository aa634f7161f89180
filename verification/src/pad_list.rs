//! The list of PAD files offered by the window: the names that end in `.pad`
//! in any case, sorted by their ASCII lower-case form, names of equal form
//! keeping the order in which the directory listed them.
use vstd::prelude::*;
use crate::text::{
    ascii_lowercase, chars_ascii_lowercase, chars_end_with_ignore_ascii_case, chars_less, chars_of,
    ends_with, lemma_lex_less_order, lex_less,
};

verus! {

/// The texts of a list of strings.
pub open spec fn texts(v: Seq<String>) -> Seq<Seq<char>> {
    v.map_values(|s: String| s@)
}

/// Whether `name` is the name of a PAD file: it ends in `.pad` in any case.
pub open spec fn is_pad_file(name: Seq<char>) -> bool {
    ends_with(ascii_lowercase(name), ".pad"@)
}

/// The PAD file names among `names`, in their order.
pub open spec fn pad_files(names: Seq<Seq<char>>) -> Seq<Seq<char>> {
    names.filter(|name: Seq<char>| is_pad_file(name))
}

/// The key by which PAD names are sorted.
pub open spec fn sort_key(name: Seq<char>) -> Seq<char> {
    ascii_lowercase(name)
}

/// Whether the item at `i` goes before the item at `j` in a stable sort of
/// `items` by `sort_key`: it has the smaller key, or an equal key and comes
/// first.
pub open spec fn sorts_before(items: Seq<Seq<char>>, i: int, j: int) -> bool {
    ||| lex_less(sort_key(items[i]), sort_key(items[j]))
    ||| (sort_key(items[i]) == sort_key(items[j]) && i < j)
}

/// `order` lists each position below `n` exactly once.
pub open spec fn is_permutation(order: Seq<int>, n: int) -> bool {
    &&& order.len() == n
    &&& forall|k: int| 0 <= k < n ==> 0 <= #[trigger] order[k] < n
    &&& forall|k: int, l: int| 0 <= k < l < n ==> order[k] != order[l]
}

/// `sorted` is `items` stably sorted by `sort_key`: the items taken in an
/// order that puts each before the next by `sorts_before`.
pub open spec fn is_stable_sort(items: Seq<Seq<char>>, sorted: Seq<Seq<char>>) -> bool {
    exists|order: Seq<int>|
        {
            &&& is_permutation(order, items.len() as int)
            &&& forall|k: int, l: int|
                0 <= k < l < items.len() ==> sorts_before(items, #[trigger] order[k], #[trigger] order[l])
            &&& sorted.len() == items.len()
            &&& forall|k: int| 0 <= k < items.len() ==> sorted[k] == items[#[trigger] order[k]]
        }
}

/// The position of the first item of `items` that satisfies `pred`.
pub open spec fn first_index(items: Seq<Seq<char>>, pred: spec_fn(Seq<char>) -> bool) -> Option<int>
    decreases items.len(),
{
    if items.len() == 0 {
        None
    } else if pred(items[0]) {
        Some(0)
    } else {
        match first_index(items.drop_first(), pred) {
            Some(i) => Some(i + 1),
            None => None,
        }
    }
}

/// `first_index` finds the item at `i` when it satisfies `pred` and none
/// before it does, and nothing when no item does.
pub proof fn lemma_first_index(items: Seq<Seq<char>>, pred: spec_fn(Seq<char>) -> bool, i: int)
    requires
        0 <= i <= items.len(),
        forall|j: int| 0 <= j < i ==> !pred(#[trigger] items[j]),
    ensures
        i < items.len() && pred(items[i]) ==> first_index(items, pred) == Some(i),
        i == items.len() ==> first_index(items, pred) is None,
    decreases i,
{
    if i > 0 {
        assert forall|j: int| 0 <= j < i - 1 implies !pred(#[trigger] items.drop_first()[j]) by {
            assert(items.drop_first()[j] == items[j + 1]);
        }
        lemma_first_index(items.drop_first(), pred, i - 1);
        assert(!pred(items[0]));
    }
}

/// What `first_index` finds satisfies `pred` and lies inside `items`.
pub proof fn lemma_first_index_some(items: Seq<Seq<char>>, pred: spec_fn(Seq<char>) -> bool)
    ensures
        first_index(items, pred) matches Some(i) ==> 0 <= i < items.len() && pred(items[i]),
    decreases items.len(),
{
    if items.len() > 0 && !pred(items[0]) {
        lemma_first_index_some(items.drop_first(), pred);
    }
}

/// When some item satisfies `pred`, `first_index` finds one no later.
pub proof fn lemma_first_index_found(items: Seq<Seq<char>>, pred: spec_fn(Seq<char>) -> bool, j: int)
    requires
        0 <= j < items.len(),
        pred(items[j]),
    ensures
        first_index(items, pred) is Some,
        0 <= first_index(items, pred)->0 <= j,
        pred(items[first_index(items, pred)->0]),
    decreases j,
{
    if j > 0 && !pred(items[0]) {
        assert(items.drop_first()[j - 1] == items[j]);
        lemma_first_index_found(items.drop_first(), pred, j - 1);
    }
}

/// Whether `name` is the name of a PAD file.
pub fn is_pad_file_name(name: &str) -> (r: bool)
    ensures
        r == is_pad_file(name@),
{
    let chars = chars_of(name);
    let extension: Vec<char> = vec!['.', 'p', 'a', 'd'];
    proof {
        reveal_strlit(".pad");
        assert(ascii_lowercase(extension@) =~= ".pad"@);
    }
    chars_end_with_ignore_ascii_case(&chars, &extension)
}

/// The PAD file names among `names`, in their order.
pub fn filter_pad_files(names: Vec<String>) -> (r: Vec<String>)
    ensures
        texts(r@) == pad_files(texts(names@)),
{
    let mut r: Vec<String> = Vec::new();
    let mut i: usize = 0;
    while i < names.len()
        invariant
            i <= names@.len(),
            texts(r@) == pad_files(texts(names@.take(i as int))),
        decreases names@.len() - i,
    {
        let keep = is_pad_file_name(names[i].as_str());
        proof {
            let pred = |name: Seq<char>| is_pad_file(name);
            assert(texts(names@.take(i + 1)) =~= texts(names@.take(i as int)).push(names@[i as int]@));
            texts(names@.take(i as int)).lemma_filter_push(names@[i as int]@, pred);
        }
        if keep {
            let ghost before = r@;
            r.push(names[i].clone());
            assert(texts(r@) =~= texts(before).push(names@[i as int]@));
        }
        i = i + 1;
    }
    assert(names@.take(names@.len() as int) =~= names@);
    r
}

/// `sorts_before` orders the positions of `items` strictly and totally.
pub proof fn lemma_sorts_before_order(items: Seq<Seq<char>>, a: int, b: int, c: int)
    ensures
        !sorts_before(items, a, a),
        sorts_before(items, a, b) ==> !sorts_before(items, b, a),
        a != b ==> sorts_before(items, a, b) || sorts_before(items, b, a),
        sorts_before(items, a, b) && sorts_before(items, b, c) ==> sorts_before(items, a, c),
{
    let (ka, kb, kc) = (sort_key(items[a]), sort_key(items[b]), sort_key(items[c]));
    lemma_lex_less_order(ka, kb, kc);
    lemma_lex_less_order(kb, ka, kc);
    lemma_lex_less_order(ka, kc, kb);
    lemma_lex_less_order(kb, kc, ka);
    lemma_lex_less_order(ka, ka, kc);
}

/// Inserts position `i` into `order`, which stably sorts the positions
/// before `i`, so that it stably sorts the positions up to `i`.
fn insert_sorted(keys: &Vec<Vec<char>>, order: &mut Vec<usize>, i: usize, Ghost(items): Ghost<Seq<Seq<char>>>)
    requires
        i < keys@.len(),
        keys@.len() == items.len(),
        forall|j: int| 0 <= j < items.len() ==> (#[trigger] keys@[j])@ == sort_key(items[j]),
        old(order)@.len() == i,
        forall|k: int| 0 <= k < i ==> #[trigger] old(order)@[k] < i,
        forall|k: int, l: int| 0 <= k < l < i ==> old(order)@[k] != old(order)@[l],
        forall|k: int, l: int|
            0 <= k < l < i ==> sorts_before(
                items,
                #[trigger] old(order)@[k] as int,
                #[trigger] old(order)@[l] as int,
            ),
    ensures
        final(order)@.len() == i + 1,
        forall|k: int| 0 <= k <= i ==> #[trigger] final(order)@[k] <= i,
        forall|k: int, l: int| 0 <= k < l <= i ==> final(order)@[k] != final(order)@[l],
        forall|k: int, l: int|
            0 <= k < l <= i ==> sorts_before(
                items,
                #[trigger] final(order)@[k] as int,
                #[trigger] final(order)@[l] as int,
            ),
{
    let mut p: usize = i;
    while p > 0 && chars_less(&keys[i], &keys[order[p - 1]])
        invariant
            p <= i,
            i < keys@.len(),
            keys@.len() == items.len(),
            forall|j: int| 0 <= j < items.len() ==> (#[trigger] keys@[j])@ == sort_key(items[j]),
            order@ == old(order)@,
            order@.len() == i,
            forall|k: int| 0 <= k < i ==> #[trigger] order@[k] < i,
            forall|q: int| p <= q < i ==> lex_less(sort_key(items[i as int]), sort_key(items[#[trigger] order@[q] as int])),
        decreases p,
    {
        p = p - 1;
    }
    let ghost before = order@;
    proof {
        // every position left of `p` goes before `i`, every one from `p` on after it
        assert forall|q: int| 0 <= q < p implies sorts_before(items, #[trigger] before[q] as int, i as int) by {
            let last = before[p - 1] as int;
            lemma_sorts_before_order(items, last, i as int, last);
            lemma_lex_less_order(sort_key(items[i as int]), sort_key(items[last]), sort_key(items[last]));
            if q < p - 1 {
                lemma_sorts_before_order(items, before[q] as int, last, i as int);
            }
        }
        assert forall|q: int| p <= q < i implies sorts_before(items, i as int, #[trigger] before[q] as int) by {}
    }
    order.insert(p, i);
    proof {
        let after = order@;
        assert forall|k: int| 0 <= k <= i implies #[trigger] after[k] <= i by {
            if k < p {
                assert(after[k] == before[k]);
            } else if k > p {
                assert(after[k] == before[k - 1]);
            }
        }
        assert forall|k: int, l: int| 0 <= k < l <= i implies after[k] != after[l] by {
            if k < p && l < p {
                assert(after[k] == before[k] && after[l] == before[l]);
            } else if k < p && l == p {
                assert(after[k] == before[k]);
            } else if k < p {
                assert(after[k] == before[k] && after[l] == before[l - 1]);
            } else if k == p {
                assert(after[l] == before[l - 1]);
            } else {
                assert(after[k] == before[k - 1] && after[l] == before[l - 1]);
            }
        }
        assert forall|k: int, l: int| 0 <= k < l <= i implies sorts_before(
            items,
            #[trigger] after[k] as int,
            #[trigger] after[l] as int,
        ) by {
            if k < p && l < p {
                assert(after[k] == before[k] && after[l] == before[l]);
            } else if k < p && l == p {
                assert(after[k] == before[k]);
            } else if k < p {
                assert(after[k] == before[k] && after[l] == before[l - 1]);
            } else if k == p {
                assert(after[l] == before[l - 1]);
            } else {
                assert(after[k] == before[k - 1] && after[l] == before[l - 1]);
            }
        }
    }
}

/// `names` stably sorted by their ASCII lower-case form (as
/// `sort_by_key(|name| name.to_ascii_lowercase())`).
pub fn sort_pad_names(names: Vec<String>) -> (r: Vec<String>)
    ensures
        is_stable_sort(texts(names@), texts(r@)),
{
    let ghost items = texts(names@);
    let mut keys: Vec<Vec<char>> = Vec::new();
    for i in 0..names.len()
        invariant
            items == texts(names@),
            keys@.len() == i,
            forall|j: int| 0 <= j < i ==> (#[trigger] keys@[j])@ == sort_key(items[j]),
    {
        let chars = chars_of(names[i].as_str());
        keys.push(chars_ascii_lowercase(&chars));
    }
    let mut order: Vec<usize> = Vec::new();
    for i in 0..names.len()
        invariant
            items == texts(names@),
            keys@.len() == items.len(),
            forall|j: int| 0 <= j < items.len() ==> (#[trigger] keys@[j])@ == sort_key(items[j]),
            order@.len() == i,
            forall|k: int| 0 <= k < i ==> #[trigger] order@[k] < i,
            forall|k: int, l: int| 0 <= k < l < i ==> order@[k] != order@[l],
            forall|k: int, l: int|
                0 <= k < l < i ==> sorts_before(items, #[trigger] order@[k] as int, #[trigger] order@[l] as int),
    {
        insert_sorted(&keys, &mut order, i, Ghost(items));
    }
    let mut r: Vec<String> = Vec::new();
    for k in 0..order.len()
        invariant
            items == texts(names@),
            order@.len() == items.len(),
            forall|j: int| 0 <= j < order@.len() ==> #[trigger] order@[j] < items.len(),
            r@.len() == k,
            forall|j: int| 0 <= j < k ==> (#[trigger] r@[j])@ == items[order@[j] as int],
    {
        r.push(names[order[k]].clone());
    }
    proof {
        let witness = order@.map_values(|v: usize| v as int);
        assert(is_permutation(witness, items.len() as int));
        assert forall|k: int, l: int| 0 <= k < l < items.len() implies sorts_before(
            items,
            #[trigger] witness[k],
            #[trigger] witness[l],
        ) by {
            assert(sorts_before(items, order@[k] as int, order@[l] as int));
        }
        assert forall|k: int| 0 <= k < items.len() implies texts(r@)[k] == items[#[trigger] witness[k]] by {}
    }
    r
}

} // verus!

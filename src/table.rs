use vstd::prelude::*;
use vstd::string::*;

verus! {

/// The view of a table keyed by strings: its entries, in insertion order.
pub open spec fn keys_view<V>(t: Seq<(String, V)>) -> Seq<(Seq<char>, V)> {
    t.map_values(|e: (String, V)| (e.0@, e.1))
}

/// No two entries of the table share a key.
pub open spec fn keys_unique<V>(t: Seq<(Seq<char>, V)>) -> bool {
    forall|i: int, j: int| 0 <= i < j < t.len() ==> #[trigger] t[i].0 != #[trigger] t[j].0
}

/// The index of the last entry with key `k`, or -1 where there is none.
pub open spec fn index_of<V>(t: Seq<(Seq<char>, V)>, k: Seq<char>) -> int
    decreases t.len(),
{
    if t.len() == 0 {
        -1
    } else if t.last().0 == k {
        t.len() - 1
    } else {
        index_of(t.drop_last(), k)
    }
}

/// The value filed under `k`, if any.
pub open spec fn lookup<V>(t: Seq<(Seq<char>, V)>, k: Seq<char>) -> Option<V> {
    if index_of(t, k) >= 0 {
        Some(t[index_of(t, k)].1)
    } else {
        None
    }
}

/// The table after filing `v` under `k`: an entry with that key is
/// overwritten in place, else the pair is appended.
pub open spec fn put<V>(t: Seq<(Seq<char>, V)>, k: Seq<char>, v: V) -> Seq<(Seq<char>, V)> {
    if index_of(t, k) >= 0 {
        t.update(index_of(t, k), (k, v))
    } else {
        t.push((k, v))
    }
}

/// `index_of` names an entry with the key, or there is none.
pub proof fn lemma_index_of<V>(t: Seq<(Seq<char>, V)>, k: Seq<char>)
    ensures
        -1 <= index_of(t, k) < t.len(),
        index_of(t, k) >= 0 ==> t[index_of(t, k)].0 == k,
        index_of(t, k) == -1 ==> forall|j: int| 0 <= j < t.len() ==> #[trigger] t[j].0 != k,
    decreases t.len(),
{
    if t.len() > 0 {
        lemma_index_of(t.drop_last(), k);
        assert forall|j: int| 0 <= j < t.len() - 1 implies #[trigger] t[j] == t.drop_last()[j] by {}
    }
}

/// Filing a value keeps the keys unique, and the value is then found.
pub proof fn lemma_put_unique<V>(t: Seq<(Seq<char>, V)>, k: Seq<char>, v: V)
    requires
        keys_unique(t),
    ensures
        keys_unique(put(t, k, v)),
        index_of(put(t, k, v), k) >= 0,
        lookup(put(t, k, v), k) == Some(v),
{
    lemma_index_of(t, k);
    let u = put(t, k, v);
    assert forall|i: int, j: int| 0 <= i < j < u.len() implies #[trigger] u[i].0 != #[trigger] u[j].0 by {
        if index_of(t, k) >= 0 {
            let x = index_of(t, k);
            if i != x && j != x {
                assert(t[i].0 != t[j].0);
            } else if i == x {
                assert(t[j].0 != t[x].0);
            } else {
                assert(t[i].0 != t[x].0);
            }
        } else if j == t.len() {
            assert(t[i].0 != k);
        } else {
            assert(t[i].0 != t[j].0);
        }
    }
    lemma_index_of(u, k);
    if index_of(u, k) != index_of(t, k) && index_of(t, k) >= 0 {
        assert(u[index_of(u, k)].0 == u[index_of(t, k)].0);
    }
    if index_of(t, k) < 0 {
        assert(u[u.len() - 1].0 == k);
        assert(index_of(u, k) == u.len() - 1);
    }
}

/// The index of the entry of `t` with key `k`, if any.
pub fn find<V>(t: &Vec<(String, V)>, k: &String) -> (r: Option<usize>)
    ensures
        r is Some <==> index_of(keys_view(t@), k@) >= 0,
        r is Some ==> r->Some_0 == index_of(keys_view(t@), k@) && r->Some_0 < t@.len(),
{
    let ghost view = keys_view(t@);
    assert(view.subrange(0, t@.len() as int) == view);
    let mut i: usize = t.len();
    while i > 0
        invariant
            i <= t@.len(),
            view == keys_view(t@),
            index_of(view, k@) == index_of(view.subrange(0, i as int), k@),
        decreases i,
    {
        let ghost prefix = view.subrange(0, i as int);
        assert(prefix.drop_last() == view.subrange(0, i - 1));
        assert(prefix.last() == view[i - 1]);
        if t[i - 1].0 == *k {
            return Some(i - 1);
        }
        i = i - 1;
    }
    None
}

/// Files `v` under `k`, overwriting the entry with that key if there is one.
pub fn put_entry<V>(t: &mut Vec<(String, V)>, k: String, v: V)
    ensures
        keys_view(final(t)@) == put(keys_view(old(t)@), k@, v),
{
    let ghost before = keys_view(t@);
    proof {
        lemma_index_of(before, k@);
    }
    match find(t, &k) {
        Some(i) => {
            t.set(i, (k, v));
            assert(keys_view(t@) =~= put(before, k@, v));
        },
        None => {
            t.push((k, v));
            assert(keys_view(t@) =~= put(before, k@, v));
        },
    }
}

} // verus!

verus! {

/// The view of a table of strings: keys and values as character sequences.
pub open spec fn texts_view(t: Seq<(String, String)>) -> Seq<(Seq<char>, Seq<char>)> {
    t.map_values(|e: (String, String)| (e.0@, e.1@))
}

/// Where two tables have the same keys in the same order, a key has the same
/// index in both.
pub proof fn lemma_index_of_same_keys<V, W>(a: Seq<(Seq<char>, V)>, b: Seq<(Seq<char>, W)>, k: Seq<char>)
    requires
        a.len() == b.len(),
        forall|i: int| 0 <= i < a.len() ==> #[trigger] a[i].0 == b[i].0,
    ensures
        index_of(a, k) == index_of(b, k),
    decreases a.len(),
{
    if a.len() > 0 {
        let (a1, b1) = (a.drop_last(), b.drop_last());
        assert forall|i: int| 0 <= i < a1.len() implies #[trigger] a1[i].0 == b1[i].0 by {
            assert(a1[i] == a[i] && b1[i] == b[i]);
        }
        lemma_index_of_same_keys(a1, b1, k);
        assert(a.last().0 == b.last().0);
    }
}

/// The index of the entry of the string table `t` with key `k`, if any.
pub fn find_text(t: &Vec<(String, String)>, k: &String) -> (r: Option<usize>)
    ensures
        r is Some <==> index_of(texts_view(t@), k@) >= 0,
        r is Some ==> r->Some_0 == index_of(texts_view(t@), k@) && r->Some_0 < t@.len(),
{
    proof {
        lemma_index_of_same_keys(keys_view(t@), texts_view(t@), k@);
    }
    find(t, k)
}

/// Files the text `v` under `k`, overwriting the entry with that key if there
/// is one.
pub fn put_text(t: &mut Vec<(String, String)>, k: String, v: String)
    ensures
        texts_view(final(t)@) == put(texts_view(old(t)@), k@, v@),
{
    let ghost before = texts_view(t@);
    proof {
        lemma_index_of(before, k@);
    }
    match find_text(t, &k) {
        Some(i) => {
            let ghost (kv, vv) = (k@, v@);
            t.set(i, (k, v));
            assert(texts_view(t@) =~= put(before, kv, vv));
        },
        None => {
            let ghost (kv, vv) = (k@, v@);
            t.push((k, v));
            assert(texts_view(t@) =~= put(before, kv, vv));
        },
    }
}

} // verus!

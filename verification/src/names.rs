//! Sequences of names: where a name stands, and a list without repeats.

use crate::text::strings_view;
use vstd::prelude::*;

verus! {

/// The first position at or after `i` at which `name` stands.
pub open spec fn index_from(names: Seq<Seq<char>>, name: Seq<char>, i: int) -> Option<int>
    decreases names.len() - i,
{
    if i < 0 || i >= names.len() {
        None
    } else if names[i] == name {
        Some(i)
    } else {
        index_from(names, name, i + 1)
    }
}

/// The first position at which `name` stands.
pub open spec fn index_in(names: Seq<Seq<char>>, name: Seq<char>) -> Option<int> {
    index_from(names, name, 0)
}

/// No name stands twice.
pub open spec fn distinct(names: Seq<Seq<char>>) -> bool {
    forall|i: int, j: int| 0 <= i < j < names.len() ==> names[i] != names[j]
}

/// The first `n` names without repeats: of equal names the first stays.
pub open spec fn dedup_upto(names: Seq<Seq<char>>, n: int) -> Seq<Seq<char>>
    decreases n,
{
    if n <= 0 {
        Seq::empty()
    } else {
        let rest = dedup_upto(names, n - 1);
        if rest.contains(names[n - 1]) {
            rest
        } else {
            rest.push(names[n - 1])
        }
    }
}

/// The names without repeats: of equal names the first stays.
pub open spec fn dedup(names: Seq<Seq<char>>) -> Seq<Seq<char>> {
    dedup_upto(names, names.len() as int)
}

/// What `index_from` finds is the first match at or after `i`.
pub proof fn lemma_index_from(names: Seq<Seq<char>>, name: Seq<char>, i: int)
    requires
        0 <= i <= names.len(),
    ensures
        match index_from(names, name, i) {
            Some(k) => i <= k < names.len() && names[k] == name && forall|j: int| i <= j < k ==> names[j] != name,
            None => forall|j: int| i <= j < names.len() ==> names[j] != name,
        },
    decreases names.len() - i,
{
    if i < names.len() && names[i] != name {
        lemma_index_from(names, name, i + 1);
    }
}

/// Among distinct names, a name is found exactly where it stands.
pub proof fn lemma_index_unique(names: Seq<Seq<char>>, name: Seq<char>, k: int)
    requires
        distinct(names),
        0 <= k < names.len(),
        names[k] == name,
    ensures
        index_in(names, name) == Some(k),
{
    lemma_index_from(names, name, 0);
}

/// A name stands in a list with one more name where it stood before or is
/// the name added.
pub proof fn lemma_push_contains(names: Seq<Seq<char>>, last: Seq<char>, name: Seq<char>)
    ensures
        names.push(last).contains(name) <==> names.contains(name) || last == name,
{
    let all = names.push(last);
    if names.contains(name) {
        let k = choose|k: int| 0 <= k < names.len() && names[k] == name;
        assert(all[k] == name);
    }
    if last == name {
        assert(all[names.len() as int] == name);
    }
    if all.contains(name) {
        let k = choose|k: int| 0 <= k < all.len() && all[k] == name;
        if k < names.len() {
            assert(names[k] == name);
        }
    }
}

/// A name stands in two lists put together where it stands in one of them.
pub proof fn lemma_add_contains(a: Seq<Seq<char>>, b: Seq<Seq<char>>, name: Seq<char>)
    ensures
        (a + b).contains(name) <==> a.contains(name) || b.contains(name),
{
    let all = a + b;
    if a.contains(name) {
        let k = choose|k: int| 0 <= k < a.len() && a[k] == name;
        assert(all[k] == name);
    }
    if b.contains(name) {
        let k = choose|k: int| 0 <= k < b.len() && b[k] == name;
        assert(all[a.len() + k] == name);
    }
    if all.contains(name) {
        let k = choose|k: int| 0 <= k < all.len() && all[k] == name;
        if k < a.len() {
            assert(a[k] == name);
        } else {
            assert(b[k - a.len()] == name);
        }
    }
}

/// A list without repeats holds what the names held, each once.
pub proof fn lemma_dedup_upto(names: Seq<Seq<char>>, n: int)
    requires
        0 <= n <= names.len(),
    ensures
        distinct(dedup_upto(names, n)),
        forall|x: Seq<char>| dedup_upto(names, n).contains(x) <==> names.take(n).contains(x),
    decreases n,
{
    if n > 0 {
        lemma_dedup_upto(names, n - 1);
        let rest = dedup_upto(names, n - 1);
        let last = names[n - 1];
        let out = dedup_upto(names, n);
        let prev = names.take(n - 1);
        let cur = names.take(n);
        assert forall|x: Seq<char>| out.contains(x) <==> cur.contains(x) by {
            if cur.contains(x) {
                let k = choose|k: int| 0 <= k < cur.len() && cur[k] == x;
                if k < n - 1 {
                    assert(prev[k] == x);
                    assert(rest.contains(x));
                    let j = choose|j: int| 0 <= j < rest.len() && rest[j] == x;
                    assert(out[j] == x);
                } else {
                    assert(x == last);
                    if rest.contains(last) {
                    } else {
                        assert(out[rest.len() as int] == last);
                    }
                }
            }
            if out.contains(x) {
                let j = choose|j: int| 0 <= j < out.len() && out[j] == x;
                if j < rest.len() {
                    assert(rest[j] == x);
                    assert(rest.contains(x));
                    let k = choose|k: int| 0 <= k < prev.len() && prev[k] == x;
                    assert(cur[k] == x);
                } else {
                    assert(cur[n - 1] == x);
                }
            }
        }
    }
}

/// A list without repeats holds what the names held, each once.
pub proof fn lemma_dedup(names: Seq<Seq<char>>)
    ensures
        distinct(dedup(names)),
        forall|x: Seq<char>| dedup(names).contains(x) <==> names.contains(x),
{
    lemma_dedup_upto(names, names.len() as int);
    assert(names.take(names.len() as int) =~= names);
}

/// Whether `name` stands among `names`.
pub fn contains_name(names: &Vec<String>, name: &String) -> (r: bool)
    ensures
        r == strings_view(names@).contains(name@),
{
    let mut i: usize = 0;
    while i < names.len()
        invariant
            i <= names.len(),
            forall|j: int| 0 <= j < i ==> strings_view(names@)[j] != name@,
        decreases names.len() - i,
    {
        if names[i] == *name {
            assert(strings_view(names@)[i as int] == name@);
            return true;
        }
        i += 1;
    }
    false
}

/// The names without repeats: of equal names the first stays.
pub fn dedup_names(names: Vec<String>) -> (out: Vec<String>)
    ensures
        strings_view(out@) == dedup(strings_view(names@)),
{
    let mut out: Vec<String> = Vec::new();
    let mut i: usize = 0;
    while i < names.len()
        invariant
            i <= names.len(),
            strings_view(out@) == dedup_upto(strings_view(names@), i as int),
        decreases names.len() - i,
    {
        let ghost before = strings_view(out@);
        if !contains_name(&out, &names[i]) {
            out.push(names[i].clone());
            assert(strings_view(out@) =~= before.push(strings_view(names@)[i as int]));
        }
        i += 1;
    }
    out
}

} // verus!

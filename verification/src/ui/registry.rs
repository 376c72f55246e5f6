//! The node registry kept as a sequence of key and node pairs with distinct keys,
//! and the map it stands for.

use vstd::prelude::*;
use crate::ui::node::UINode;

verus! {

/// The keys of a node registry are pairwise different.
pub open spec fn keys_distinct<Cb>(s: Seq<(String, UINode<Cb>)>) -> bool {
    forall|i: int, j: int| 0 <= i < j < s.len() ==> s[i].0@ != s[j].0@
}

/// Some entry of the registry has key `k`.
pub open spec fn has_key<Cb>(s: Seq<(String, UINode<Cb>)>, k: Seq<char>) -> bool {
    exists|i: int| 0 <= i < s.len() && s[i].0@ == k
}

/// The registry as a map from keys to nodes.
pub open spec fn entry_map<Cb>(s: Seq<(String, UINode<Cb>)>) -> Map<Seq<char>, UINode<Cb>> {
    Map::new(
        |k: Seq<char>| has_key(s, k),
        |k: Seq<char>| s[choose|i: int| 0 <= i < s.len() && s[i].0@ == k].1,
    )
}

pub(crate) proof fn lemma_entry_at<Cb>(s: Seq<(String, UINode<Cb>)>, i: int)
    requires
        keys_distinct(s),
        0 <= i < s.len(),
    ensures
        entry_map(s).contains_key(s[i].0@),
        entry_map(s)[s[i].0@] == s[i].1,
{
    assert(has_key(s, s[i].0@));
    let j = choose|j: int| 0 <= j < s.len() && s[j].0@ == s[i].0@;
    assert(j == i);
}

pub(crate) proof fn lemma_entry_remove<Cb>(s: Seq<(String, UINode<Cb>)>, i: int)
    requires
        keys_distinct(s),
        0 <= i < s.len(),
    ensures
        keys_distinct(s.remove(i)),
        entry_map(s.remove(i)) =~= entry_map(s).remove(s[i].0@),
{
    let t = s.remove(i);
    assert forall|a: int, b: int| 0 <= a < b < t.len() implies t[a].0@ != t[b].0@ by {
        let a2 = if a < i { a } else { a + 1 };
        let b2 = if b < i { b } else { b + 1 };
        assert(t[a] == s[a2]);
        assert(t[b] == s[b2]);
    }
    assert forall|k: Seq<char>| #[trigger] entry_map(t).contains_key(k) <==> entry_map(s).remove(s[i].0@).contains_key(k) by {
        if has_key(t, k) {
            let a = choose|a: int| 0 <= a < t.len() && t[a].0@ == k;
            let a2 = if a < i { a } else { a + 1 };
            assert(s[a2] == t[a]);
            assert(has_key(s, k));
        }
        if has_key(s, k) && k != s[i].0@ {
            let a = choose|a: int| 0 <= a < s.len() && s[a].0@ == k;
            let a2 = if a < i { a } else { a - 1 };
            assert(t[a2] == s[a]);
            assert(has_key(t, k));
        }
    }
    assert forall|k: Seq<char>| entry_map(t).contains_key(k) implies #[trigger] entry_map(t)[k] == entry_map(s)[k] by {
        let a = choose|a: int| 0 <= a < t.len() && t[a].0@ == k;
        let a2 = if a < i { a } else { a + 1 };
        assert(s[a2] == t[a]);
        lemma_entry_at(t, a);
        lemma_entry_at(s, a2);
    }
}

pub(crate) proof fn lemma_entry_push<Cb>(s: Seq<(String, UINode<Cb>)>, e: (String, UINode<Cb>))
    requires
        keys_distinct(s),
        !has_key(s, e.0@),
    ensures
        keys_distinct(s.push(e)),
        entry_map(s.push(e)) =~= entry_map(s).insert(e.0@, e.1),
{
    let t = s.push(e);
    assert forall|a: int, b: int| 0 <= a < b < t.len() implies t[a].0@ != t[b].0@ by {
        if b == s.len() {
            assert(t[a] == s[a]);
        } else {
            assert(t[a] == s[a]);
            assert(t[b] == s[b]);
        }
    }
    assert forall|k: Seq<char>| #[trigger] entry_map(t).contains_key(k) <==> entry_map(s).insert(e.0@, e.1).contains_key(k) by {
        if has_key(t, k) {
            let a = choose|a: int| 0 <= a < t.len() && t[a].0@ == k;
            if a < s.len() {
                assert(t[a] == s[a]);
                assert(has_key(s, k));
            }
        }
        if has_key(s, k) {
            let a = choose|a: int| 0 <= a < s.len() && s[a].0@ == k;
            assert(t[a] == s[a]);
            assert(has_key(t, k));
        }
        if k == e.0@ {
            assert(t[s.len() as int] == e);
            assert(has_key(t, k));
        }
    }
    assert forall|k: Seq<char>| entry_map(t).contains_key(k) implies #[trigger] entry_map(t)[k] == entry_map(s).insert(e.0@, e.1)[k] by {
        let a = choose|a: int| 0 <= a < t.len() && t[a].0@ == k;
        lemma_entry_at(t, a);
        if a < s.len() {
            assert(t[a] == s[a]);
            lemma_entry_at(s, a);
        } else {
            assert(t[a] == e);
        }
    }
}

pub(crate) proof fn lemma_entry_update<Cb>(s: Seq<(String, UINode<Cb>)>, i: int, e: (String, UINode<Cb>))
    requires
        keys_distinct(s),
        0 <= i < s.len(),
        s[i].0@ == e.0@,
    ensures
        keys_distinct(s.update(i, e)),
        entry_map(s.update(i, e)) =~= entry_map(s).insert(e.0@, e.1),
{
    let t = s.update(i, e);
    assert forall|a: int, b: int| 0 <= a < b < t.len() implies t[a].0@ != t[b].0@ by {
        assert(t[a].0@ == s[a].0@);
        assert(t[b].0@ == s[b].0@);
    }
    assert forall|k: Seq<char>| #[trigger] entry_map(t).contains_key(k) <==> entry_map(s).insert(e.0@, e.1).contains_key(k) by {
        if has_key(t, k) {
            let a = choose|a: int| 0 <= a < t.len() && t[a].0@ == k;
            assert(s[a].0@ == k);
            assert(has_key(s, k));
        }
        if has_key(s, k) {
            let a = choose|a: int| 0 <= a < s.len() && s[a].0@ == k;
            assert(t[a].0@ == k);
            assert(has_key(t, k));
        }
        if k == e.0@ {
            assert(t[i].0@ == k);
            assert(has_key(t, k));
        }
    }
    assert forall|k: Seq<char>| entry_map(t).contains_key(k) implies #[trigger] entry_map(t)[k] == entry_map(s).insert(e.0@, e.1)[k] by {
        let a = choose|a: int| 0 <= a < t.len() && t[a].0@ == k;
        lemma_entry_at(t, a);
        if a != i {
            assert(t[a] == s[a]);
            lemma_entry_at(s, a);
        }
    }
}

/// Once every key is distinct, the registry holds as many entries as its map has keys.
pub(crate) proof fn lemma_entry_len<Cb>(s: Seq<(String, UINode<Cb>)>)
    requires
        keys_distinct(s),
    ensures
        entry_map(s).dom().finite(),
        entry_map(s).dom().len() == s.len(),
    decreases s.len(),
{
    if s.len() == 0 {
        assert(entry_map(s).dom() =~= Set::<Seq<char>>::empty());
    } else {
        let t = s.drop_last();
        let e = s.last();
        assert forall|a: int, b: int| 0 <= a < b < t.len() implies t[a].0@ != t[b].0@ by {
            assert(t[a] == s[a]);
            assert(t[b] == s[b]);
        }
        if has_key(t, e.0@) {
            let a = choose|a: int| 0 <= a < t.len() && t[a].0@ == e.0@;
            assert(t[a] == s[a]);
            assert(false);
        }
        lemma_entry_len(t);
        lemma_entry_push(t, e);
        assert(t.push(e) =~= s);
    }
}

/// The views of a sequence of strings.
pub open spec fn string_views(s: Seq<String>) -> Seq<Seq<char>> {
    s.map_values(|x: String| x@)
}

pub(crate) proof fn lemma_views_push(s: Seq<String>, x: String)
    ensures
        string_views(s.push(x)) == string_views(s).push(x@),
{
    assert(string_views(s.push(x)) =~= string_views(s).push(x@));
}

pub(crate) proof fn lemma_remove_insert<A>(s: Seq<A>, i: int, e: A)
    requires
        0 <= i < s.len(),
    ensures
        s.remove(i).insert(i, e) == s.update(i, e),
{
    assert(s.remove(i).insert(i, e) =~= s.update(i, e));
}

} // verus!

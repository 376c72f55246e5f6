//! Ordering nodes for drawing: by render layer, then z-index, ties in compose order.

use vstd::prelude::*;
use crate::types::{RenderLayer, layer_rank};

verus! {

/// A node's place in drawing: its key, render layer and z-index.
pub struct DrawEntry {
    pub key: String,
    pub layer: RenderLayer,
    pub z_index: i32,
}

/// `a` draws no later than `b`: a lower layer, or the same layer and a z-index no higher.
pub open spec fn draws_before(a: DrawEntry, b: DrawEntry) -> bool {
    layer_rank(a.layer) < layer_rank(b.layer)
        || (layer_rank(a.layer) == layer_rank(b.layer) && a.z_index <= b.z_index)
}

/// `a` and `b` have the same layer and z-index.
pub open spec fn same_draw_rank(a: DrawEntry, b: DrawEntry) -> bool {
    layer_rank(a.layer) == layer_rank(b.layer) && a.z_index == b.z_index
}

/// `out` is `input` rearranged by the index map `p` (`out[i]` is `input[p[i]]`,
/// every index used once), ordered by layer and then z-index, with entries of equal
/// layer and z-index kept in their input order.
pub open spec fn stable_draw_sort(input: Seq<DrawEntry>, out: Seq<DrawEntry>, p: Seq<int>) -> bool {
    &&& out.len() == input.len()
    &&& p.len() == input.len()
    &&& forall|i: int| 0 <= i < p.len() ==> 0 <= #[trigger] p[i] < input.len()
    &&& forall|i: int, j: int| 0 <= i < j < p.len() ==> p[i] != p[j]
    &&& forall|i: int| 0 <= i < out.len() ==> #[trigger] out[i] == input[p[i]]
    &&& forall|i: int, j: int| 0 <= i < j < out.len() ==> draws_before(out[i], out[j])
    &&& forall|i: int, j: int|
        0 <= i < j < out.len() && same_draw_rank(out[i], out[j]) ==> p[i] < p[j]
}

fn draws_strictly_after(a: &DrawEntry, b: &DrawEntry) -> (r: bool)
    ensures
        r == !draws_before(*a, *b),
{
    let la = a.layer.index();
    let lb = b.layer.index();
    la > lb || (la == lb && a.z_index > b.z_index)
}

/// Orders entries for drawing: by render layer, then by z-index, entries that tie
/// keeping their order (the order they were composed in).
pub fn sort_draw_order(entries: Vec<DrawEntry>) -> (r: Vec<DrawEntry>)
    ensures
        exists|p: Seq<int>| stable_draw_sort(entries@, r@, p),
{
    let ghost input = entries@;
    let n = entries.len();
    let mut rest = entries;
    let mut out: Vec<DrawEntry> = Vec::new();
    let ghost mut p: Seq<int> = Seq::empty();
    let mut done: usize = 0;
    while done < n
        invariant
            n == input.len(),
            done <= n,
            rest@.len() == n - done,
            rest@ == input.skip(done as int),
            out@.len() == done,
            p.len() == done,
            forall|i: int| 0 <= i < p.len() ==> 0 <= #[trigger] p[i] < done,
            forall|i: int, j: int| 0 <= i < j < p.len() ==> p[i] != p[j],
            forall|i: int| 0 <= i < out@.len() ==> #[trigger] out@[i] == input[p[i]],
            forall|i: int, j: int| 0 <= i < j < out@.len() ==> draws_before(out@[i], out@[j]),
            forall|i: int, j: int|
                0 <= i < j < out@.len() && same_draw_rank(out@[i], out@[j]) ==> p[i] < p[j],
        decreases n - done,
    {
        let e = rest.remove(0);
        assert(rest@ =~= input.skip(done as int + 1));
        assert(e == input[done as int]);
        // First position whose entry draws strictly after `e`.
        let mut k: usize = 0;
        while k < out.len() && !draws_strictly_after(&out[k], &e)
            invariant
                k <= out@.len(),
                forall|i: int| 0 <= i < k ==> draws_before(#[trigger] out@[i], e),
            decreases out@.len() - k,
        {
            k = k + 1;
        }
        let ghost old_out = out@;
        let ghost old_p = p;
        out.insert(k, e);
        proof {
            p = old_p.insert(k as int, done as int);
            assert forall|i: int| 0 <= i < out@.len() implies #[trigger] out@[i] == input[p[i]] by {
                if i < k {
                    assert(out@[i] == old_out[i]);
                } else if i > k {
                    assert(out@[i] == old_out[i - 1]);
                }
            }
            assert forall|i: int, j: int| 0 <= i < j < out@.len() implies draws_before(out@[i], out@[j]) by {
                if j < k {
                } else if i < k && j == k {
                } else if i < k && j > k {
                    assert(out@[j] == old_out[j - 1]);
                } else if i == k {
                    // `old_out[k]` draws strictly after `e`, and everything after it
                    // draws no earlier than it.
                    assert(out@[j] == old_out[j - 1]);
                    if j - 1 > k {
                        assert(draws_before(old_out[k as int], old_out[j - 1]));
                    }
                } else {
                    assert(out@[i] == old_out[i - 1]);
                    assert(out@[j] == old_out[j - 1]);
                }
            }
            assert forall|i: int, j: int|
                0 <= i < j < out@.len() && same_draw_rank(out@[i], out@[j]) implies p[i] < p[j] by {
                if i == k {
                    assert(out@[j] == old_out[j - 1]);
                    if j - 1 > k {
                        assert(draws_before(old_out[k as int], old_out[j - 1]));
                    }
                }
            }
        }
        done = done + 1;
    }
    assert(stable_draw_sort(input, out@, p));
    out
}

/// When every entry has the same layer and z-index, drawing order is input order.
pub proof fn lemma_equal_ranks_keep_order(input: Seq<DrawEntry>, out: Seq<DrawEntry>, p: Seq<int>)
    requires
        stable_draw_sort(input, out, p),
        forall|i: int, j: int| 0 <= i < input.len() && 0 <= j < input.len() ==> same_draw_rank(input[i], input[j]),
    ensures
        out == input,
{
    let n = p.len();
    assert forall|i: int, j: int| 0 <= i < j < n implies p[i] < p[j] by {
        assert(out[i] == input[p[i]]);
        assert(out[j] == input[p[j]]);
        assert(same_draw_rank(input[p[i]], input[p[j]]));
    }
    // A strictly increasing sequence of `n` indices below `n` is the identity.
    assert forall|i: int| 0 <= i < n implies p[i] >= i by {
        lemma_increasing_lower_bound(p, i);
    }
    assert forall|i: int| 0 <= i < n implies p[i] <= i by {
        lemma_increasing_upper_bound(p, n as int, i);
    }
    assert(out =~= input);
}

proof fn lemma_increasing_lower_bound(p: Seq<int>, i: int)
    requires
        0 <= i < p.len(),
        forall|a: int| 0 <= a < p.len() ==> 0 <= #[trigger] p[a],
        forall|a: int, b: int| 0 <= a < b < p.len() ==> p[a] < p[b],
    ensures
        p[i] >= i,
    decreases i,
{
    if i > 0 {
        lemma_increasing_lower_bound(p, i - 1);
    }
}

proof fn lemma_increasing_upper_bound(p: Seq<int>, n: int, i: int)
    requires
        p.len() == n,
        0 <= i < n,
        forall|a: int| 0 <= a < p.len() ==> #[trigger] p[a] < n,
        forall|a: int, b: int| 0 <= a < b < p.len() ==> p[a] < p[b],
    ensures
        p[i] <= i,
    decreases n - i,
{
    if i < n - 1 {
        lemma_increasing_upper_bound(p, n, i + 1);
    }
}

/// Entry `a` of `input` is drawn before entry `b`: it has a lower layer, or the same
/// layer and a lower z-index, or the same layer and z-index and an earlier position.
pub open spec fn index_draws_first(input: Seq<DrawEntry>, a: int, b: int) -> bool {
    ||| layer_rank(input[a].layer) < layer_rank(input[b].layer)
    ||| layer_rank(input[a].layer) == layer_rank(input[b].layer) && input[a].z_index < input[b].z_index
    ||| same_draw_rank(input[a], input[b]) && a < b
}

proof fn lemma_sorted_indices_increase(input: Seq<DrawEntry>, out: Seq<DrawEntry>, p: Seq<int>)
    requires
        stable_draw_sort(input, out, p),
    ensures
        forall|i: int, j: int| 0 <= i < j < p.len() ==> #[trigger] index_draws_first(input, p[i], p[j]),
{
    assert forall|i: int, j: int| 0 <= i < j < p.len() implies #[trigger] index_draws_first(input, p[i], p[j]) by {
        assert(out[i] == input[p[i]]);
        assert(out[j] == input[p[j]]);
        assert(draws_before(out[i], out[j]));
        if same_draw_rank(out[i], out[j]) {
            assert(p[i] < p[j]);
        }
    }
}

proof fn lemma_sort_covers_all(input: Seq<DrawEntry>, out: Seq<DrawEntry>, p: Seq<int>)
    requires
        stable_draw_sort(input, out, p),
    ensures
        forall|x: int| 0 <= x < input.len() ==> p.contains(x),
{
    let n = input.len() as int;
    assert(p.no_duplicates()) by {
        assert forall|i: int, j: int| 0 <= i < p.len() && 0 <= j < p.len() && i != j implies p[i] != p[j] by {
            if i < j {
            } else {
            }
        }
    }
    p.unique_seq_to_set();
    vstd::set_lib::lemma_int_range(0, n);
    let range = vstd::set_lib::set_int_range(0, n);
    assert(p.to_set().subset_of(range)) by {
        assert forall|x: int| p.to_set().contains(x) implies range.contains(x) by {
            let j = choose|j: int| 0 <= j < p.len() && p[j] == x;
            assert(0 <= p[j] < n);
        }
    }
    vstd::set_lib::lemma_len_subset(p.to_set(), range);
    vstd::set_lib::lemma_subset_equality(p.to_set(), range);
    assert forall|x: int| 0 <= x < n implies p.contains(x) by {
        assert(range.contains(x));
        assert(p.to_set().contains(x));
    }
}

proof fn lemma_sort_prefix_agrees(
    in1: Seq<DrawEntry>,
    o1: Seq<DrawEntry>,
    p1: Seq<int>,
    in2: Seq<DrawEntry>,
    o2: Seq<DrawEntry>,
    p2: Seq<int>,
    i: int,
)
    requires
        stable_draw_sort(in1, o1, p1),
        stable_draw_sort(in2, o2, p2),
        in1.len() == in2.len(),
        forall|k: int| 0 <= k < in1.len() ==> #[trigger] same_draw_rank(in1[k], in2[k]),
        0 <= i <= in1.len(),
    ensures
        forall|k: int| 0 <= k < i ==> p1[k] == p2[k],
    decreases i,
{
    if i > 0 {
        lemma_sort_prefix_agrees(in1, o1, p1, in2, o2, p2, i - 1);
        let k = i - 1;
        let x = p1[k];
        let y = p2[k];
        if x != y {
            lemma_sort_covers_all(in1, o1, p1);
            lemma_sort_covers_all(in2, o2, p2);
            lemma_sorted_indices_increase(in1, o1, p1);
            lemma_sorted_indices_increase(in2, o2, p2);
            assert(p2.contains(x));
            let j = choose|j: int| 0 <= j < p2.len() && p2[j] == x;
            if j < k {
                assert(p1[j] == p2[j]);
            }
            assert(j > k);
            assert(index_draws_first(in2, p2[k], p2[j]));
            assert(p1.contains(y));
            let m = choose|m: int| 0 <= m < p1.len() && p1[m] == y;
            if m < k {
                assert(p1[m] == p2[m]);
            }
            assert(m > k);
            assert(index_draws_first(in1, p1[k], p1[m]));
            assert(same_draw_rank(in1[x], in2[x]));
            assert(same_draw_rank(in1[y], in2[y]));
            assert(false);
        }
    }
}

/// Sorting entries for drawing has one result: two sorts of entries with the same
/// layers and z-indices, position by position, pick the same positions in the
/// same order.
pub proof fn lemma_draw_sort_unique(
    in1: Seq<DrawEntry>,
    o1: Seq<DrawEntry>,
    p1: Seq<int>,
    in2: Seq<DrawEntry>,
    o2: Seq<DrawEntry>,
    p2: Seq<int>,
)
    requires
        stable_draw_sort(in1, o1, p1),
        stable_draw_sort(in2, o2, p2),
        in1.len() == in2.len(),
        forall|k: int| 0 <= k < in1.len() ==> #[trigger] same_draw_rank(in1[k], in2[k]),
    ensures
        p1 == p2,
{
    lemma_sort_prefix_agrees(in1, o1, p1, in2, o2, p2, in1.len() as int);
    assert(p1 =~= p2);
}

/// A drawing entry's key, layer and z-index.
pub open spec fn entry_view(e: DrawEntry) -> (Seq<char>, RenderLayer, i32) {
    (e.key@, e.layer, e.z_index)
}

} // verus!

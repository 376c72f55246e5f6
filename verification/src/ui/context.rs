use vstd::prelude::*;
use vstd::string::StringExecFns;
use crate::types::RenderLayer;
use crate::ui::draw_order::{DrawEntry, entry_view, stable_draw_sort, same_draw_rank, sort_draw_order, lemma_draw_sort_unique};
use crate::ui::registry::{
    keys_distinct, has_key, entry_map, string_views, lemma_entry_at, lemma_entry_remove, lemma_entry_push,
    lemma_entry_update, lemma_entry_len, lemma_views_push, lemma_remove_insert,
};
use crate::ui::builders::{
    LabelBuilder, ButtonBuilder, PanelBuilder, GlassPanelBuilder, ProgressBarBuilder, SliderBuilder,
    SegmentedControlBuilder, InputBoxBuilder, ComboBoxBuilder, SidebarBuilder,
};
use crate::ui::node::{NodeBase, UINode, NodeKind, make_node, kind_of, base_of, with_base, begun, finalized, fresh_in, node_defaults, marked_dirty, request_consumed, clip_applied};

verus! {

/// Flex layout direction (row = horizontal, column = vertical).
#[derive(Debug, Clone, Copy, PartialEq, Eq, Structural)]
pub enum FlexDirection {
    Row,
    Column,
}

/// The retained node tree of a page: the nodes by key, the keys in the order they
/// were composed in this pass and in drawing order, the pass's stamp, and the flags
/// that report structural changes.
pub struct UIContext<Cb> {
    page_id: String,
    compose_stamp: u64,
    nodes: Vec<(String, UINode<Cb>)>,
    order: Vec<String>,
    draw_order: Vec<String>,
    tree_changed: bool,
    needs_recompose: bool,
    draw_order_stamp: u64,
    clip_depth: usize,
    layouts: Vec<LayoutSpec>,
    layout_stack: Vec<usize>,
}

/// A layout container: its flex direction and the keys of the nodes built while
/// it was the open layout, in build order.
pub struct LayoutSpec {
    pub direction: FlexDirection,
    pub children: Vec<String>,
}

/// A layout container's direction and child keys.
pub open spec fn layout_view(l: LayoutSpec) -> (FlexDirection, Seq<Seq<char>>) {
    (l.direction, string_views(l.children@))
}

/// `layouts` once `key` was registered with the open layout (the last one on
/// `stack`); unchanged when no layout is open.
pub open spec fn registered(
    layouts: Seq<(FlexDirection, Seq<Seq<char>>)>,
    stack: Seq<usize>,
    key: Seq<char>,
) -> Seq<(FlexDirection, Seq<Seq<char>>)> {
    if stack.len() == 0 {
        layouts
    } else {
        let top = stack.last() as int;
        layouts.update(top, (layouts[top].0, layouts[top].1.push(key)))
    }
}

/// Every node of `m` carries a stamp no later than `stamp`, and every node carrying
/// `stamp` has its key in `order`.
pub open spec fn consistent_parts<Cb>(m: Map<Seq<char>, UINode<Cb>>, stamp: u64, order: Seq<Seq<char>>) -> bool {
    forall|k: Seq<char>| #[trigger] m.contains_key(k) ==> {
        &&& base_of(m[k]).compose_stamp <= stamp
        &&& (base_of(m[k]).compose_stamp == stamp ==> order.contains(k))
    }
}

proof fn lemma_consistent_carries<Cb>(
    m: Map<Seq<char>, UINode<Cb>>,
    order: Seq<Seq<char>>,
    stamp: u64,
    m2: Map<Seq<char>, UINode<Cb>>,
    order2: Seq<Seq<char>>,
)
    requires
        consistent_parts(m, stamp, order),
        forall|k: Seq<char>| order.contains(k) ==> order2.contains(k),
        forall|k: Seq<char>| #[trigger] m2.contains_key(k) ==> {
            ||| m.contains_key(k) && base_of(m2[k]).compose_stamp == base_of(m[k]).compose_stamp
            ||| base_of(m2[k]).compose_stamp == stamp && order2.contains(k)
        },
    ensures
        consistent_parts(m2, stamp, order2),
{
    assert forall|k: Seq<char>| #[trigger] m2.contains_key(k) implies {
        &&& base_of(m2[k]).compose_stamp <= stamp
        &&& (base_of(m2[k]).compose_stamp == stamp ==> order2.contains(k))
    } by {
        if m.contains_key(k) && base_of(m2[k]).compose_stamp == base_of(m[k]).compose_stamp {
            if base_of(m[k]).compose_stamp == stamp {
                assert(order.contains(k));
            }
        }
    }
}

proof fn lemma_push_contains<A>(s: Seq<A>, x: A)
    ensures
        forall|y: A| s.contains(y) ==> #[trigger] s.push(x).contains(y),
        s.push(x).contains(x),
{
    assert forall|y: A| s.contains(y) implies #[trigger] s.push(x).contains(y) by {
        let i = choose|i: int| 0 <= i < s.len() && s[i] == y;
        assert(s.push(x)[i] == y);
    }
    assert(s.push(x)[s.len() as int] == x);
}

/// The registry's shape, the nodes, the page, the stamp, both orders and the flags
/// are the same.
pub open spec fn tree_kept<Cb>(before: UIContext<Cb>, after: UIContext<Cb>) -> bool {
    &&& after.wf() == before.wf()
    &&& after.node_view() == before.node_view()
    &&& after.page_view() == before.page_view()
    &&& after.stamp() == before.stamp()
    &&& after.order_view() == before.order_view()
    &&& after.draw_order_view() == before.draw_order_view()
    &&& after.tree_changed_flag() == before.tree_changed_flag()
    &&& after.needs_recompose_flag() == before.needs_recompose_flag()
}

/// The layouts, the open-layout stack and the clip depth are the same.
pub open spec fn frame_kept<Cb>(before: UIContext<Cb>, after: UIContext<Cb>) -> bool {
    &&& after.layouts_view() == before.layouts_view()
    &&& after.layout_stack_view() == before.layout_stack_view()
    &&& after.clip_depth_view() == before.clip_depth_view()
}

/// The entries of `m` whose node took part in the pass with `stamp`.
pub open spec fn composed_only<Cb>(m: Map<Seq<char>, UINode<Cb>>, stamp: u64) -> Map<Seq<char>, UINode<Cb>> {
    Map::new(
        |k: Seq<char>| m.contains_key(k) && base_of(m[k]).compose_stamp == stamp,
        |k: Seq<char>| m[k],
    )
}

/// The keys of `order` that have a node in `m`, in order, each with its node's
/// render layer and z-index.
pub open spec fn drawable_entries<Cb>(
    order: Seq<Seq<char>>,
    m: Map<Seq<char>, UINode<Cb>>,
) -> Seq<(Seq<char>, RenderLayer, i32)>
    decreases order.len(),
{
    if order.len() == 0 {
        Seq::empty()
    } else {
        let rest = drawable_entries(order.drop_last(), m);
        let k = order.last();
        if m.contains_key(k) {
            rest.push((k, base_of(m[k]).render_layer, base_of(m[k]).z_index))
        } else {
            rest
        }
    }
}

/// `draw` lists the keys of `order` that have a node in `m`, sorted by render layer
/// and then z-index, keys that tie keeping their compose order.
pub open spec fn sorted_segment<Cb>(
    draw: Seq<Seq<char>>,
    order: Seq<Seq<char>>,
    m: Map<Seq<char>, UINode<Cb>>,
) -> bool {
    exists|entries: Seq<DrawEntry>, sorted: Seq<DrawEntry>, p: Seq<int>|
        #![trigger stable_draw_sort(entries, sorted, p)]
        entries.map_values(|e: DrawEntry| entry_view(e)) == drawable_entries(order, m)
            && stable_draw_sort(entries, sorted, p)
            && draw == sorted.map_values(|e: DrawEntry| e.key@)
}

/// The position of the last key of `order` that has no node in `m`, or -1 when
/// every key has one.
pub open spec fn last_missing<Cb>(order: Seq<Seq<char>>, m: Map<Seq<char>, UINode<Cb>>) -> int
    decreases order.len(),
{
    if order.len() == 0 {
        -1
    } else if !m.contains_key(order.last()) {
        order.len() - 1
    } else {
        last_missing(order.drop_last(), m)
    }
}

/// `draw` is the drawing order of the compose order `order` with nodes `m`: every
/// key of `order` stays in it; a key without a node (one taken out and not put
/// back) keeps its compose position, and each run of keys between such keys is
/// sorted by render layer and then z-index, keys that tie keeping their compose
/// order.
pub open spec fn is_draw_order<Cb>(
    draw: Seq<Seq<char>>,
    order: Seq<Seq<char>>,
    m: Map<Seq<char>, UINode<Cb>>,
) -> bool
    decreases order.len(),
{
    let j = last_missing(order, m);
    if j < 0 {
        sorted_segment(draw, order, m)
    } else if j < order.len() {
        &&& draw.len() == order.len()
        &&& is_draw_order(draw.take(j), order.take(j), m)
        &&& draw[j] == order[j]
        &&& sorted_segment(draw.skip(j + 1), order.skip(j + 1), m)
    } else {
        false
    }
}

/// The key a context gives a node with local id `id` on page `page`: the id
/// itself when the page id is empty, else page id, a dot and the id.
pub open spec fn key_for(page: Seq<char>, id: Seq<char>) -> Seq<char> {
    if page.len() == 0 { id } else { page + seq!['.'] + id }
}

/// `after` is `before` once the node for local id `id` was taken out to be
/// configured, `key` being its full key and `node` the node handed out. A node the
/// registry held is handed out, begun for this pass unless it already was, in which
/// case nothing else changes; when it is begun, its key joins the compose order. With
/// no node under the key, a fresh node of `kind` is made and begun, its key joins the
/// compose order, and the tree is marked changed.
pub open spec fn took_for_builder<Cb>(
    before: UIContext<Cb>,
    after: UIContext<Cb>,
    id: Seq<char>,
    kind: NodeKind,
    node: UINode<Cb>,
    key: Seq<char>,
) -> bool {
    let m = before.node_view();
    let stamp = before.stamp();
    &&& after.wf()
    &&& key == key_for(before.page_view(), id)
    &&& after.node_view() == m.remove(key)
    &&& after.page_view() == before.page_view()
    &&& after.stamp() == stamp
    &&& after.draw_order_view() == before.draw_order_view()
    &&& after.needs_recompose_flag() == before.needs_recompose_flag()
    &&& frame_kept(before, after)
    &&& (before.consistent() ==> after.consistent() && after.order_view().contains(key))
    &&& if m.contains_key(key) {
        &&& after.tree_changed_flag() == before.tree_changed_flag()
        &&& if base_of(m[key]).compose_stamp == stamp {
            node == m[key] && after.order_view() == before.order_view()
        } else {
            node == with_base(m[key], begun(base_of(m[key]), stamp))
                && after.order_view() == before.order_view().push(key)
        }
    } else {
        &&& kind_of(node) == kind
        &&& node_defaults(node)
        &&& base_of(node).key@ == key
        &&& fresh_in(base_of(node), stamp)
        &&& after.tree_changed_flag()
        &&& after.order_view() == before.order_view().push(key)
    }
}

/// `after` is `before` once `node` was put back under `key`, replacing any node
/// there: the context's clip is applied to it (a clip rectangle applies when a clip
/// is pushed and the node clips to its parent), it is finished with
/// `primitive_changed`, and its key is registered with the open layout, if any.
pub open spec fn returned<Cb>(
    before: UIContext<Cb>,
    after: UIContext<Cb>,
    key: Seq<char>,
    node: UINode<Cb>,
    primitive_changed: bool,
) -> bool {
    &&& after.wf()
    &&& after.node_view() == before.node_view().insert(
        key,
        finalized(clip_applied(node, before.clip_depth_view() > 0), primitive_changed),
    )
    &&& after.layouts_view() == registered(before.layouts_view(), before.layout_stack_view(), key)
    &&& after.layout_stack_view() == before.layout_stack_view()
    &&& after.clip_depth_view() == before.clip_depth_view()
    &&& (before.consistent() && base_of(node).compose_stamp <= before.stamp()
        && (base_of(node).compose_stamp == before.stamp() ==> before.order_view().contains(key))
        ==> after.consistent())
    &&& after.page_view() == before.page_view()
    &&& after.stamp() == before.stamp()
    &&& after.order_view() == before.order_view()
    &&& after.draw_order_view() == before.draw_order_view()
    &&& after.tree_changed_flag() == before.tree_changed_flag()
    &&& after.needs_recompose_flag() == before.needs_recompose_flag()
}

/// Every node of `m` with its visual cache marked dirty.
pub open spec fn all_marked_dirty<Cb>(m: Map<Seq<char>, UINode<Cb>>) -> Map<Seq<char>, UINode<Cb>> {
    Map::new(|k: Seq<char>| m.contains_key(k), |k: Seq<char>| marked_dirty(m[k]))
}

/// Some node of `m` has a pending recompose request.
pub open spec fn any_recompose_requested<Cb>(m: Map<Seq<char>, UINode<Cb>>) -> bool {
    exists|k: Seq<char>| #[trigger] m.contains_key(k) && base_of(m[k]).recompose_requested
}

/// Every node of `m` with its recompose request cleared.
pub open spec fn all_requests_consumed<Cb>(m: Map<Seq<char>, UINode<Cb>>) -> Map<Seq<char>, UINode<Cb>> {
    Map::new(|k: Seq<char>| m.contains_key(k), |k: Seq<char>| request_consumed(m[k]))
}

/// `after` is `before` once the node under `key` was acquired for this pass: an
/// existing node is begun unless it already was, and then its key joins the compose
/// order; with no node there, a fresh node of `kind` is made, begun and stored, its
/// key joins the compose order, and the tree is marked changed. Either way the
/// context's clip is applied to the node.
pub open spec fn acquired<Cb>(before: UIContext<Cb>, after: UIContext<Cb>, key: Seq<char>, kind: NodeKind) -> bool {
    let m = before.node_view();
    let stamp = before.stamp();
    let inside = before.clip_depth_view() > 0;
    &&& after.wf()
    &&& after.page_view() == before.page_view()
    &&& after.stamp() == stamp
    &&& after.draw_order_view() == before.draw_order_view()
    &&& after.needs_recompose_flag() == before.needs_recompose_flag()
    &&& frame_kept(before, after)
    &&& (before.consistent() ==> after.consistent())
    &&& if m.contains_key(key) {
        &&& after.tree_changed_flag() == before.tree_changed_flag()
        &&& if base_of(m[key]).compose_stamp == stamp {
            after.node_view() == m.insert(key, clip_applied(m[key], inside))
                && after.order_view() == before.order_view()
        } else {
            after.node_view() == m.insert(key, clip_applied(with_base(m[key], begun(base_of(m[key]), stamp)), inside))
                && after.order_view() == before.order_view().push(key)
        }
    } else {
        let n = after.node_view()[key];
        &&& after.node_view() == m.insert(key, n)
        &&& kind_of(n) == kind
        &&& node_defaults(n)
        &&& base_of(n).key@ == key
        &&& fresh_in(NodeBase { has_clip_rect: false, ..base_of(n) }, stamp)
        &&& base_of(n).has_clip_rect == inside
        &&& after.tree_changed_flag()
        &&& after.order_view() == before.order_view().push(key)
    }
}

/// Sorts `seg` for drawing and appends the sorted keys to `out`.
fn append_sorted_keys(out: &mut Vec<String>, seg: Vec<DrawEntry>)
    ensures
        exists|sorted: Seq<DrawEntry>, p: Seq<int>|
            #![trigger stable_draw_sort(seg@, sorted, p)]
            stable_draw_sort(seg@, sorted, p)
                && string_views(final(out)@) == string_views(old(out)@) + sorted.map_values(|e: DrawEntry| e.key@),
{
    let ghost seg_view = seg@;
    let ghost start = string_views(out@);
    let sorted = sort_draw_order(seg);
    let m = sorted.len();
    let mut i: usize = 0;
    proof {
        assert(sorted@.take(0).map_values(|e: DrawEntry| e.key@) =~= Seq::<Seq<char>>::empty());
        assert(string_views(out@) =~= start + sorted@.take(0).map_values(|e: DrawEntry| e.key@));
    }
    while i < m
        invariant
            m == sorted@.len(),
            i <= m,
            string_views(out@) == start + sorted@.take(i as int).map_values(|e: DrawEntry| e.key@),
        decreases m - i,
    {
        let k = sorted[i].key.clone();
        proof {
            lemma_views_push(out@, k);
            assert(sorted@.take(i as int + 1).map_values(|e: DrawEntry| e.key@)
                =~= sorted@.take(i as int).map_values(|e: DrawEntry| e.key@).push(k@));
        }
        out.push(k);
        i = i + 1;
    }
    proof {
        let p = choose|p: Seq<int>| stable_draw_sort(seg_view, sorted@, p);
        assert(stable_draw_sort(seg_view, sorted@, p));
        assert(sorted@.take(m as int) =~= sorted@);
    }
}

impl<Cb> UIContext<Cb> {
    /// The registry's keys are pairwise different.
    pub closed spec fn wf(&self) -> bool {
        keys_distinct(self.nodes@)
    }

    /// The nodes by key.
    pub closed spec fn node_view(&self) -> Map<Seq<char>, UINode<Cb>> {
        entry_map(self.nodes@)
    }

    /// The current page id.
    pub closed spec fn page_view(&self) -> Seq<char> {
        self.page_id@
    }

    /// The stamp of the current compose pass.
    pub closed spec fn stamp(&self) -> u64 {
        self.compose_stamp
    }

    /// The keys composed in this pass, in compose order.
    pub closed spec fn order_view(&self) -> Seq<Seq<char>> {
        string_views(self.order@)
    }

    /// The keys in drawing order, as of the last `end`.
    pub closed spec fn draw_order_view(&self) -> Seq<Seq<char>> {
        string_views(self.draw_order@)
    }

    /// Whether a node was created during this pass.
    pub closed spec fn tree_changed_flag(&self) -> bool {
        self.tree_changed
    }

    /// Whether a recompose was asked for during this pass.
    pub closed spec fn needs_recompose_flag(&self) -> bool {
        self.needs_recompose
    }

    /// The layout containers made in this pass, by index.
    pub closed spec fn layouts_view(&self) -> Seq<(FlexDirection, Seq<Seq<char>>)> {
        self.layouts@.map_values(|l: LayoutSpec| layout_view(l))
    }

    /// The indices of the open layouts, innermost last.
    pub closed spec fn layout_stack_view(&self) -> Seq<usize> {
        self.layout_stack@
    }

    /// How many clip rectangles are pushed.
    pub closed spec fn clip_depth_view(&self) -> nat {
        self.clip_depth as nat
    }

    /// The open layout, if any, is one of the layouts.
    pub open spec fn open_layout_ok(&self) -> bool {
        self.layout_stack_view().len() == 0
            || (self.layout_stack_view().last() as int) < self.layouts_view().len()
    }

    /// Every node carries a stamp no later than the current pass's, and every node
    /// composed in the current pass has its key in the compose order.
    pub open spec fn consistent(&self) -> bool {
        consistent_parts(self.node_view(), self.stamp(), self.order_view())
    }

    /// A context with no nodes, stamp 0 and an empty page id.
    pub fn new() -> (c: Self)
        ensures
            c.wf(),
            c.node_view().is_empty(),
            c.page_view() == Seq::<char>::empty(),
            c.stamp() == 0,
            c.order_view() == Seq::<Seq<char>>::empty(),
            c.draw_order_view() == Seq::<Seq<char>>::empty(),
            !c.tree_changed_flag(),
            !c.needs_recompose_flag(),
            c.layouts_view() == Seq::<(FlexDirection, Seq<Seq<char>>)>::empty(),
            c.layout_stack_view() == Seq::<usize>::empty(),
            c.clip_depth_view() == 0,
            c.consistent(),
    {
        let c = UIContext {
            page_id: String::new(),
            compose_stamp: 0,
            nodes: Vec::new(),
            order: Vec::new(),
            draw_order: Vec::new(),
            tree_changed: false,
            needs_recompose: false,
            draw_order_stamp: 0,
            clip_depth: 0,
            layouts: Vec::new(),
            layout_stack: Vec::new(),
        };
        assert(c.layouts_view() =~= Seq::<(FlexDirection, Seq<Seq<char>>)>::empty());
        assert(c.node_view() =~= Map::<Seq<char>, UINode<Cb>>::empty());
        assert(c.order_view() =~= Seq::<Seq<char>>::empty());
        assert(c.draw_order_view() =~= Seq::<Seq<char>>::empty());
        c
    }

    /// Begins a compose pass for the given page: a new stamp, empty compose and draw
    /// orders, cleared flags, no layouts and no clip; the nodes are kept.
    pub fn begin(&mut self, page_id: &str)
        requires
            old(self).wf(),
            old(self).stamp() < u64::MAX,
        ensures
            final(self).wf(),
            final(self).node_view() == old(self).node_view(),
            final(self).page_view() == page_id@,
            final(self).stamp() == old(self).stamp() + 1,
            final(self).order_view() == Seq::<Seq<char>>::empty(),
            final(self).draw_order_view() == Seq::<Seq<char>>::empty(),
            !final(self).tree_changed_flag(),
            !final(self).needs_recompose_flag(),
            final(self).layouts_view() == Seq::<(FlexDirection, Seq<Seq<char>>)>::empty(),
            final(self).layout_stack_view() == Seq::<usize>::empty(),
            final(self).clip_depth_view() == 0,
            old(self).consistent() ==> final(self).consistent(),
    {
        self.page_id = page_id.to_string();
        self.compose_stamp = self.compose_stamp + 1;
        self.order = Vec::new();
        self.draw_order = Vec::new();
        self.tree_changed = false;
        self.needs_recompose = false;
        self.clip_depth = 0;
        self.layouts = Vec::new();
        self.layout_stack = Vec::new();
        assert(self.layouts_view() =~= Seq::<(FlexDirection, Seq<Seq<char>>)>::empty());
        assert(self.order_view() =~= Seq::<Seq<char>>::empty());
        assert(self.draw_order_view() =~= Seq::<Seq<char>>::empty());
    }

    /// Whether a node was created during this pass.
    pub fn tree_changed(&self) -> (r: bool)
        ensures
            r == self.tree_changed_flag(),
    {
        self.tree_changed
    }

    /// Whether a recompose was asked for during this pass.
    pub fn needs_recompose(&self) -> (r: bool)
        ensures
            r == self.needs_recompose_flag(),
    {
        self.needs_recompose
    }

    /// The stamp of the current compose pass.
    pub fn compose_stamp(&self) -> (r: u64)
        ensures
            r == self.stamp(),
    {
        self.compose_stamp
    }

    /// The current page identifier.
    pub fn page_id(&self) -> (r: &str)
        ensures
            r@ == self.page_view(),
    {
        self.page_id.as_str()
    }

    /// The full key for local id `id` on the current page.
    pub fn full_key(&self, id: &str) -> (r: String)
        ensures
            r@ == key_for(self.page_view(), id@),
    {
        if self.page_id.as_str().is_empty() {
            id.to_string()
        } else {
            let mut k = String::from_str(self.page_id.as_str());
            k.append(".");
            k.append(id);
            proof {
                reveal_strlit(".");
            }
            k
        }
    }

    /// The position of the registry entry with key `key`, if any.
    fn find_index(&self, key: &String) -> (r: Option<usize>)
        ensures
            match r {
                Some(i) => i < self.nodes@.len() && self.nodes@[i as int].0@ == key@,
                None => !has_key(self.nodes@, key@),
            },
    {
        let n = self.nodes.len();
        let mut i: usize = 0;
        while i < n
            invariant
                n == self.nodes@.len(),
                i <= n,
                forall|j: int| 0 <= j < i ==> self.nodes@[j].0@ != key@,
            decreases n - i,
        {
            if self.nodes[i].0 == *key {
                return Some(i);
            }
            i = i + 1;
        }
        None
    }

    /// Number of nodes currently retained.
    pub fn node_count(&self) -> (r: usize)
        requires
            self.wf(),
        ensures
            r == self.node_view().len(),
    {
        proof {
            lemma_entry_len(self.nodes@);
        }
        self.nodes.len()
    }

    /// The node retained under `key`, if any.
    pub fn get_node(&self, key: &str) -> (r: Option<&UINode<Cb>>)
        requires
            self.wf(),
        ensures
            match r {
                Some(n) => self.node_view().contains_key(key@) && *n == self.node_view()[key@],
                None => !self.node_view().contains_key(key@),
            },
    {
        let k = key.to_string();
        match self.find_index(&k) {
            Some(i) => {
                proof {
                    lemma_entry_at(self.nodes@, i as int);
                }
                Some(&self.nodes[i].1)
            },
            None => None,
        }
    }

    /// Mutable access to the node retained under `key`, if any; whatever is done
    /// through it is what the registry holds under `key` afterwards.
    pub fn get_node_mut(&mut self, key: &str) -> (r: Option<&mut UINode<Cb>>)
        requires
            old(self).wf(),
        ensures
            match r {
                Some(n) => {
                    &&& old(self).node_view().contains_key(key@)
                    &&& *n == old(self).node_view()[key@]
                    &&& final(self).wf()
                    &&& final(self).node_view() == old(self).node_view().insert(key@, *final(n))
                    &&& frame_kept(*old(self), *final(self))
                },
                None => !old(self).node_view().contains_key(key@) && *final(self) == *old(self),
            },
    {
        let k = key.to_string();
        match self.find_index(&k) {
            Some(i) => {
                let ghost s = self.nodes@;
                proof {
                    lemma_entry_at(s, i as int);
                }
                let entry = &mut self.nodes[i];
                let n = &mut entry.1;
                proof {
                    lemma_entry_update(s, i as int, (s[i as int].0, *final(n)));
                }
                Some(n)
            },
            None => None,
        }
    }

    /// Takes the node for local id `id` out of the registry to configure it, making a
    /// fresh node of `kind` when there is none, and begins its compose pass.
    /// Returns the node and its full key.
    pub fn take_for_builder(&mut self, id: &str, kind: NodeKind) -> (r: (UINode<Cb>, String))
        requires
            old(self).wf(),
        ensures
            took_for_builder(*old(self), *final(self), id@, kind, r.0, r.1@),
    {
        let full_key = self.full_key(id);
        let stamp = self.compose_stamp;
        let ghost s = self.nodes@;
        match self.find_index(&full_key) {
            Some(i) => {
                proof {
                    lemma_entry_at(s, i as int);
                    lemma_entry_remove(s, i as int);
                }
                let (_, mut node) = self.nodes.remove(i);
                let ghost o = string_views(self.order@);
                if !node.composed_in(stamp) {
                    node.begin_compose(stamp);
                    proof {
                        lemma_views_push(self.order@, full_key);
                        lemma_push_contains(o, full_key@);
                    }
                    self.order.push(full_key.clone());
                }
                proof {
                    if old(self).consistent() {
                        let m = entry_map(s);
                        lemma_consistent_carries(m, o, stamp, self.node_view(), self.order_view());
                        assert(m.contains_key(full_key@));
                    }
                }
                (node, full_key)
            },
            None => {
                self.tree_changed = true;
                let mut node = make_node(kind, full_key.clone());
                node.begin_compose(stamp);
                let ghost o = string_views(self.order@);
                proof {
                    lemma_views_push(self.order@, full_key);
                    lemma_push_contains(o, full_key@);
                    assert(entry_map(s).remove(full_key@) =~= entry_map(s));
                }
                self.order.push(full_key.clone());
                proof {
                    if old(self).consistent() {
                        lemma_consistent_carries(entry_map(s), o, stamp, self.node_view(), self.order_view());
                    }
                }
                (node, full_key)
            },
        }
    }

    /// Finishes the compose pass of a node taken out with `take_for_builder` and puts
    /// it back under `key`. `primitive_changed` says whether its primitive differs
    /// from the one recorded at its last finished pass.
    pub fn return_and_finalize(&mut self, key: String, node: UINode<Cb>, primitive_changed: bool)
        requires
            old(self).wf(),
            old(self).open_layout_ok(),
        ensures
            returned(*old(self), *final(self), key@, node, primitive_changed),
    {
        let mut node = node;
        node.apply_clip(self.clip_depth > 0);
        node.finish_compose(primitive_changed);
        self.register_with_open_layout(&key);
        match self.find_index(&key) {
            Some(i) => {
                proof {
                    lemma_entry_update(self.nodes@, i as int, (key, node));
                }
                self.nodes.set(i, (key, node));
            },
            None => {
                proof {
                    lemma_entry_push(self.nodes@, (key, node));
                }
                self.nodes.push((key, node));
            },
        }
    }

    /// Drops the nodes that were not composed in the current pass.
    fn prune_stale(&mut self)
        requires
            old(self).wf(),
        ensures
            final(self).wf(),
            final(self).node_view() == composed_only(old(self).node_view(), old(self).stamp()),
            *final(self) == (UIContext { nodes: final(self).nodes, ..*old(self) }),
    {
        let stamp = self.compose_stamp;
        let ghost orig = entry_map(self.nodes@);
        let mut i: usize = 0;
        while i < self.nodes.len()
            invariant
                keys_distinct(self.nodes@),
                i <= self.nodes@.len(),
                stamp == old(self).compose_stamp,
                *self == (UIContext { nodes: self.nodes, ..*old(self) }),
                orig == entry_map(old(self).nodes@),
                forall|j: int| 0 <= j < i ==> base_of(#[trigger] self.nodes@[j].1).compose_stamp == stamp,
                forall|k: Seq<char>| #[trigger] entry_map(self.nodes@).contains_key(k)
                    ==> orig.contains_key(k) && entry_map(self.nodes@)[k] == orig[k],
                forall|k: Seq<char>| #[trigger] orig.contains_key(k) && base_of(orig[k]).compose_stamp == stamp
                    ==> entry_map(self.nodes@).contains_key(k),
            decreases self.nodes@.len() - i,
        {
            if self.nodes[i].1.composed_in(stamp) {
                i = i + 1;
            } else {
                let ghost s = self.nodes@;
                proof {
                    lemma_entry_at(s, i as int);
                    lemma_entry_remove(s, i as int);
                }
                let _stale = self.nodes.remove(i);
                assert forall|j: int| 0 <= j < i implies base_of(#[trigger] self.nodes@[j].1).compose_stamp == stamp by {
                    assert(self.nodes@[j] == s[j]);
                }
            }
        }
        proof {
            let m = entry_map(self.nodes@);
            assert forall|k: Seq<char>| m.contains_key(k) implies base_of(orig[k]).compose_stamp == stamp by {
                let j = choose|j: int| 0 <= j < self.nodes@.len() && self.nodes@[j].0@ == k;
                lemma_entry_at(self.nodes@, j);
            }
            assert(m =~= composed_only(orig, stamp));
        }
    }


    /// Ends a compose pass: drops the nodes not composed in it, then orders the
    /// keys of the compose order for drawing by render layer and z-index, ties in
    /// compose order. A key whose node is still taken out has no rank: it keeps its
    /// place, and the keys on either side of it are ordered apart.
    pub fn end(&mut self)
        requires
            old(self).wf(),
        ensures
            final(self).wf(),
            final(self).node_view() == composed_only(old(self).node_view(), old(self).stamp()),
            is_draw_order(final(self).draw_order_view(), old(self).order_view(), final(self).node_view()),
            final(self).page_view() == old(self).page_view(),
            final(self).stamp() == old(self).stamp(),
            final(self).order_view() == old(self).order_view(),
            final(self).tree_changed_flag() == old(self).tree_changed_flag(),
            final(self).needs_recompose_flag() == old(self).needs_recompose_flag(),
            frame_kept(*old(self), *final(self)),
            old(self).consistent() ==> final(self).consistent(),
    {
        self.prune_stale();
        let n = self.order.len();
        let ghost ov = self.order_view();
        let ghost mv = self.node_view();
        let mut out: Vec<String> = Vec::new();
        let mut seg: Vec<DrawEntry> = Vec::new();
        let mut seg_start: usize = 0;
        let mut i: usize = 0;
        proof {
            lemma_empty_sorted_segment(mv);
            assert(string_views(out@) =~= Seq::<Seq<char>>::empty());
            assert(ov.take(0) =~= Seq::<Seq<char>>::empty());
            assert(seg@.map_values(|e: DrawEntry| entry_view(e)) =~= drawable_entries(ov.subrange(0, 0), mv));
        }
        while i < n
            invariant
                self.wf(),
                n == self.order@.len(),
                ov == self.order_view(),
                mv == self.node_view(),
                seg_start <= i <= n,
                last_missing(ov.take(i as int), mv) == seg_start - 1,
                is_draw_order(string_views(out@), ov.take(seg_start as int), mv),
                out@.len() == seg_start,
                seg@.map_values(|e: DrawEntry| entry_view(e))
                    == drawable_entries(ov.subrange(seg_start as int, i as int), mv),
                forall|k: int| seg_start <= k < i ==> mv.contains_key(#[trigger] ov[k]),
            decreases n - i,
        {
            let key = &self.order[i];
            proof {
                lemma_last_missing_step(ov, i as int, mv);
                assert(ov[i as int] == key@);
            }
            match self.find_index(key) {
                Some(j) => {
                    proof {
                        lemma_entry_at(self.nodes@, j as int);
                    }
                    let ghost before = seg@;
                    let base = self.nodes[j].1.base();
                    seg.push(DrawEntry { key: key.clone(), layer: base.render_layer, z_index: base.z_index });
                    proof {
                        let sub = ov.subrange(seg_start as int, i as int + 1);
                        assert(sub.drop_last() =~= ov.subrange(seg_start as int, i as int));
                        assert(sub.last() == key@);
                        assert(seg@.map_values(|e: DrawEntry| entry_view(e)) =~= before.map_values(
                            |e: DrawEntry| entry_view(e),
                        ).push((key@, base.render_layer, base.z_index)));
                    }
                },
                None => {
                    let ghost out_before = string_views(out@);
                    let ghost seg_view = seg@;
                    let ghost s0 = seg_start as int;
                    let mut taken: Vec<DrawEntry> = Vec::new();
                    std::mem::swap(&mut taken, &mut seg);
                    append_sorted_keys(&mut out, taken);
                    let ghost out_mid = string_views(out@);
                    let k = key.clone();
                    proof {
                        lemma_views_push(out@, k);
                    }
                    out.push(k);
                    seg_start = i + 1;
                    proof {
                        let (sorted, p) = choose|sorted: Seq<DrawEntry>, p: Seq<int>|
                            #![trigger stable_draw_sort(seg_view, sorted, p)]
                            stable_draw_sort(seg_view, sorted, p)
                                && out_mid == out_before + sorted.map_values(|e: DrawEntry| e.key@);
                        let sk = sorted.map_values(|e: DrawEntry| e.key@);
                        assert(stable_draw_sort(seg_view, sorted, p));
                        assert(sorted_segment(sk, ov.subrange(s0, i as int), mv));
                        lemma_draw_order_extend(out_before, sk, ov, s0, i as int, mv);
                        let sub = ov.subrange(s0, i as int);
                        assert forall|q: int| 0 <= q < sub.len() implies mv.contains_key(#[trigger] sub[q]) by {
                            assert(sub[q] == ov[s0 + q]);
                        }
                        lemma_drawable_all_present(sub, mv);
                        lemma_sorted_segment_len(sk, sub, mv);
                        let newv = string_views(out@);
                        let o1 = ov.take(i as int + 1);
                        lemma_empty_sorted_segment(mv);
                        assert(newv.take(i as int) =~= out_before + sk);
                        assert(o1.take(i as int) =~= ov.take(i as int));
                        assert(newv.skip(i as int + 1) =~= Seq::<Seq<char>>::empty());
                        assert(o1.skip(i as int + 1) =~= Seq::<Seq<char>>::empty());
                        assert(newv[i as int] == o1[i as int]);
                        assert(is_draw_order(newv, o1, mv));
                        assert(seg@.map_values(|e: DrawEntry| entry_view(e)) =~= drawable_entries(
                            ov.subrange(i as int + 1, i as int + 1),
                            mv,
                        ));
                    }
                },
            }
            i = i + 1;
        }
        let ghost out_before = string_views(out@);
        let ghost seg_view = seg@;
        let ghost s0 = seg_start as int;
        append_sorted_keys(&mut out, seg);
        proof {
            let (sorted, p) = choose|sorted: Seq<DrawEntry>, p: Seq<int>|
                #![trigger stable_draw_sort(seg_view, sorted, p)]
                stable_draw_sort(seg_view, sorted, p)
                    && string_views(out@) == out_before + sorted.map_values(|e: DrawEntry| e.key@);
            let sk = sorted.map_values(|e: DrawEntry| e.key@);
            assert(stable_draw_sort(seg_view, sorted, p));
            assert(sorted_segment(sk, ov.subrange(s0, n as int), mv));
            lemma_draw_order_extend(out_before, sk, ov, s0, n as int, mv);
            assert(ov.take(n as int) =~= ov);
        }
        self.draw_order = out;
        self.draw_order_stamp = self.compose_stamp;
    }

    /// Consumes the recompose requests of all nodes: returns whether any node had
    /// one, and clears every node's request.
    pub fn consume_recompose_request(&mut self) -> (r: bool)
        requires
            old(self).wf(),
        ensures
            r == any_recompose_requested(old(self).node_view()),
            final(self).wf(),
            final(self).node_view() == all_requests_consumed(old(self).node_view()),
            final(self).page_view() == old(self).page_view(),
            final(self).stamp() == old(self).stamp(),
            final(self).order_view() == old(self).order_view(),
            final(self).draw_order_view() == old(self).draw_order_view(),
            final(self).tree_changed_flag() == old(self).tree_changed_flag(),
            final(self).needs_recompose_flag() == old(self).needs_recompose_flag(),
            frame_kept(*old(self), *final(self)),
            old(self).consistent() ==> final(self).consistent(),
    {
        let ghost s = self.nodes@;
        let n = self.nodes.len();
        let mut any = false;
        let mut i: usize = 0;
        while i < n
            invariant
                n == s.len(),
                i <= n,
                self.nodes@.len() == n,
                keys_distinct(s),
                *self == (UIContext { nodes: self.nodes, ..*old(self) }),
                s == old(self).nodes@,
                forall|j: int| 0 <= j < n ==> (#[trigger] self.nodes@[j]).0 == s[j].0,
                forall|j: int| 0 <= j < i ==> (#[trigger] self.nodes@[j]).1 == request_consumed(s[j].1),
                forall|j: int| i <= j < n ==> (#[trigger] self.nodes@[j]).1 == s[j].1,
                any == exists|j: int| 0 <= j < i && base_of(#[trigger] s[j].1).recompose_requested,
            decreases n - i,
        {
            let ghost before = self.nodes@;
            let (k, mut node) = self.nodes.remove(i);
            if node.consume_recompose_request() {
                any = true;
            }
            self.nodes.insert(i, (k, node));
            assert forall|j: int| 0 <= j < n implies (#[trigger] self.nodes@[j]) == (if j == i {
                (before[j].0, request_consumed(before[j].1))
            } else {
                before[j]
            }) by {
                if j < i {
                    assert(self.nodes@[j] == before[j]);
                } else if j > i {
                    assert(self.nodes@[j] == before[j]);
                }
            }
            i = i + 1;
        }
        proof {
            let t = self.nodes@;
            assert forall|a: int, b: int| 0 <= a < b < t.len() implies t[a].0@ != t[b].0@ by {
                assert(t[a].0 == s[a].0);
                assert(t[b].0 == s[b].0);
            }
            let m = entry_map(s);
            let mt = entry_map(t);
            assert forall|k: Seq<char>| #[trigger] mt.contains_key(k) <==> m.contains_key(k) by {
                if has_key(t, k) {
                    let a = choose|a: int| 0 <= a < t.len() && t[a].0@ == k;
                    assert(t[a].0 == s[a].0);
                    assert(has_key(s, k));
                }
                if has_key(s, k) {
                    let a = choose|a: int| 0 <= a < s.len() && s[a].0@ == k;
                    assert(t[a].0 == s[a].0);
                    assert(has_key(t, k));
                }
            }
            assert forall|k: Seq<char>| mt.contains_key(k) implies #[trigger] mt[k] == request_consumed(m[k]) by {
                let a = choose|a: int| 0 <= a < t.len() && t[a].0@ == k;
                lemma_entry_at(t, a);
                assert(t[a].0 == s[a].0);
                lemma_entry_at(s, a);
            }
            assert(mt =~= all_requests_consumed(m));
            if any {
                let j = choose|j: int| 0 <= j < n && base_of(#[trigger] s[j].1).recompose_requested;
                lemma_entry_at(s, j);
                assert(m.contains_key(s[j].0@));
            }
            if any_recompose_requested(m) {
                let k = choose|k: Seq<char>| #[trigger] m.contains_key(k) && base_of(m[k]).recompose_requested;
                let j = choose|j: int| 0 <= j < s.len() && s[j].0@ == k;
                lemma_entry_at(s, j);
                assert(base_of(s[j].1).recompose_requested);
            }
        }
        any
    }

    /// Marks every retained node's visual cache dirty (after a theme change, say).
    pub fn mark_all_nodes_dirty(&mut self)
        requires
            old(self).wf(),
        ensures
            final(self).wf(),
            final(self).node_view() == all_marked_dirty(old(self).node_view()),
            final(self).page_view() == old(self).page_view(),
            final(self).stamp() == old(self).stamp(),
            final(self).order_view() == old(self).order_view(),
            final(self).draw_order_view() == old(self).draw_order_view(),
            final(self).tree_changed_flag() == old(self).tree_changed_flag(),
            final(self).needs_recompose_flag() == old(self).needs_recompose_flag(),
            frame_kept(*old(self), *final(self)),
            old(self).consistent() ==> final(self).consistent(),
    {
        let ghost s = self.nodes@;
        let n = self.nodes.len();
        let mut i: usize = 0;
        while i < n
            invariant
                n == s.len(),
                i <= n,
                self.nodes@.len() == n,
                keys_distinct(s),
                *self == (UIContext { nodes: self.nodes, ..*old(self) }),
                s == old(self).nodes@,
                forall|j: int| 0 <= j < n ==> (#[trigger] self.nodes@[j]).0 == s[j].0,
                forall|j: int| 0 <= j < i ==> (#[trigger] self.nodes@[j]).1 == marked_dirty(s[j].1),
                forall|j: int| i <= j < n ==> (#[trigger] self.nodes@[j]).1 == s[j].1,
            decreases n - i,
        {
            let ghost before = self.nodes@;
            let (k, mut node) = self.nodes.remove(i);
            node.force_compose_dirty();
            self.nodes.insert(i, (k, node));
            assert forall|j: int| 0 <= j < n implies (#[trigger] self.nodes@[j]) == (if j == i {
                (before[j].0, marked_dirty(before[j].1))
            } else {
                before[j]
            }) by {
                if j < i {
                    assert(self.nodes@[j] == before[j]);
                } else if j > i {
                    assert(self.nodes@[j] == before[j]);
                }
            }
            i = i + 1;
        }
        proof {
            let t = self.nodes@;
            assert forall|a: int, b: int| 0 <= a < b < t.len() implies t[a].0@ != t[b].0@ by {
                assert(t[a].0 == s[a].0);
                assert(t[b].0 == s[b].0);
            }
            let m = entry_map(s);
            let mt = entry_map(t);
            assert forall|k: Seq<char>| #[trigger] mt.contains_key(k) <==> m.contains_key(k) by {
                if has_key(t, k) {
                    let a = choose|a: int| 0 <= a < t.len() && t[a].0@ == k;
                    assert(t[a].0 == s[a].0);
                    assert(has_key(s, k));
                }
                if has_key(s, k) {
                    let a = choose|a: int| 0 <= a < s.len() && s[a].0@ == k;
                    assert(t[a].0 == s[a].0);
                    assert(has_key(t, k));
                }
            }
            assert forall|k: Seq<char>| mt.contains_key(k) implies #[trigger] mt[k] == marked_dirty(m[k]) by {
                let a = choose|a: int| 0 <= a < t.len() && t[a].0@ == k;
                lemma_entry_at(t, a);
                assert(t[a].0 == s[a].0);
                lemma_entry_at(s, a);
            }
            assert(mt =~= all_marked_dirty(m));
        }
    }

    /// The compose-order keys (the order the nodes were composed in this pass).
    pub fn order(&self) -> (r: &[String])
        ensures
            string_views(r@) == self.order_view(),
    {
        self.order.as_slice()
    }

    /// The draw-order keys (sorted by layer, then z-index).
    pub fn draw_order(&self) -> (r: &[String])
        ensures
            string_views(r@) == self.draw_order_view(),
    {
        self.draw_order.as_slice()
    }

    /// Makes sure a node is stored under `full_key` and begun for this pass, making a
    /// fresh node of `kind` when there is none. Returns the key.
    pub fn acquire_node(&mut self, full_key: String, kind: NodeKind) -> (r: String)
        requires
            old(self).wf(),
        ensures
            r@ == full_key@,
            acquired(*old(self), *final(self), full_key@, kind),
    {
        match self.find_index(&full_key) {
            None => self.acquire_new(full_key, kind),
            Some(i) => self.acquire_existing(i, full_key, kind),
        }
    }

    fn acquire_new(&mut self, full_key: String, kind: NodeKind) -> (r: String)
        requires
            old(self).wf(),
            !has_key(old(self).nodes@, full_key@),
        ensures
            r@ == full_key@,
            acquired(*old(self), *final(self), full_key@, kind),
    {
        let stamp = self.compose_stamp;
        let ghost s = self.nodes@;
        self.tree_changed = true;
        let mut node = make_node(kind, full_key.clone());
        node.begin_compose(stamp);
        node.apply_clip(self.clip_depth > 0);
        let ghost o = string_views(self.order@);
        proof {
            lemma_entry_push(s, (full_key, node));
            lemma_entry_at(s.push((full_key, node)), s.len() as int);
            lemma_views_push(self.order@, full_key);
            lemma_push_contains(o, full_key@);
        }
        self.nodes.push((full_key.clone(), node));
        self.order.push(full_key.clone());
        proof {
            if old(self).consistent() {
                lemma_consistent_carries(entry_map(s), o, stamp, self.node_view(), self.order_view());
            }
        }
        full_key
    }

    #[verifier::rlimit(40)]
    fn acquire_existing(&mut self, i: usize, full_key: String, kind: NodeKind) -> (r: String)
        requires
            old(self).wf(),
            i < old(self).nodes@.len(),
            old(self).nodes@[i as int].0@ == full_key@,
        ensures
            r@ == full_key@,
            acquired(*old(self), *final(self), full_key@, kind),
    {
        let stamp = self.compose_stamp;
        let ghost s = self.nodes@;
        proof {
            lemma_entry_at(s, i as int);
        }
        let (k, mut node) = self.nodes.remove(i);
        let begin = !node.composed_in(stamp);
        if begin {
            node.begin_compose(stamp);
        }
        node.apply_clip(self.clip_depth > 0);
        proof {
            lemma_remove_insert(s, i as int, (k, node));
            lemma_entry_update(s, i as int, (k, node));
            lemma_views_push(self.order@, full_key);
        }
        let ghost o = string_views(self.order@);
        proof {
            lemma_push_contains(o, full_key@);
        }
        self.nodes.insert(i, (k, node));
        if begin {
            self.order.push(full_key.clone());
        }
        proof {
            if old(self).consistent() {
                let m = entry_map(s);
                assert(m.contains_key(full_key@));
                lemma_consistent_carries(m, o, stamp, self.node_view(), self.order_view());
            }
        }
        full_key
    }

    /// Finishes the compose pass of the node under `key`, if there is one, and
    /// registers the key with the open layout, if any.
    /// `primitive_changed` says whether its primitive differs from the one recorded
    /// at its last finished pass.
    pub fn finalize_build(&mut self, key: &str, primitive_changed: bool)
        requires
            old(self).wf(),
            old(self).open_layout_ok(),
        ensures
            final(self).layouts_view() == registered(old(self).layouts_view(), old(self).layout_stack_view(), key@),
            final(self).layout_stack_view() == old(self).layout_stack_view(),
            final(self).clip_depth_view() == old(self).clip_depth_view(),
            final(self).wf(),
            final(self).node_view() == (if old(self).node_view().contains_key(key@) {
                old(self).node_view().insert(key@, finalized(old(self).node_view()[key@], primitive_changed))
            } else {
                old(self).node_view()
            }),
            final(self).page_view() == old(self).page_view(),
            final(self).stamp() == old(self).stamp(),
            final(self).order_view() == old(self).order_view(),
            final(self).draw_order_view() == old(self).draw_order_view(),
            final(self).tree_changed_flag() == old(self).tree_changed_flag(),
            final(self).needs_recompose_flag() == old(self).needs_recompose_flag(),
            old(self).consistent() ==> final(self).consistent(),
    {
        let k = key.to_string();
        let ghost s = self.nodes@;
        match self.find_index(&k) {
            Some(i) => {
                proof {
                    lemma_entry_at(s, i as int);
                }
                let (k2, mut node) = self.nodes.remove(i);
                node.finish_compose(primitive_changed);
                proof {
                    lemma_remove_insert(s, i as int, (k2, node));
                    lemma_entry_update(s, i as int, (k2, node));
                }
                self.nodes.insert(i, (k2, node));
            },
            None => {},
        }
        self.register_with_open_layout(&k);
    }

    /// Starts configuring a text label with local id `id` (see `take_for_builder`).
    pub fn label(&mut self, id: &str) -> (r: LabelBuilder<Cb>)
        requires
            old(self).wf(),
        ensures
            took_for_builder(*old(self), *final(self), id@, NodeKind::Label, r.node, r.key@),
    {
        let (node, key) = self.take_for_builder(id, NodeKind::Label);
        LabelBuilder { node, key }
    }

    /// Starts configuring a button with local id `id` (see `take_for_builder`).
    pub fn button(&mut self, id: &str) -> (r: ButtonBuilder<Cb>)
        requires
            old(self).wf(),
        ensures
            took_for_builder(*old(self), *final(self), id@, NodeKind::Button, r.node, r.key@),
    {
        let (node, key) = self.take_for_builder(id, NodeKind::Button);
        ButtonBuilder { node, key }
    }

    /// Starts configuring a panel with local id `id` (see `take_for_builder`).
    pub fn panel(&mut self, id: &str) -> (r: PanelBuilder<Cb>)
        requires
            old(self).wf(),
        ensures
            took_for_builder(*old(self), *final(self), id@, NodeKind::Panel, r.node, r.key@),
    {
        let (node, key) = self.take_for_builder(id, NodeKind::Panel);
        PanelBuilder { node, key }
    }

    /// Starts configuring a glass panel with local id `id` (see `take_for_builder`).
    pub fn glass_panel(&mut self, id: &str) -> (r: GlassPanelBuilder<Cb>)
        requires
            old(self).wf(),
        ensures
            took_for_builder(*old(self), *final(self), id@, NodeKind::GlassPanel, r.node, r.key@),
    {
        let (node, key) = self.take_for_builder(id, NodeKind::GlassPanel);
        GlassPanelBuilder { node, key }
    }

    /// Starts configuring a progress bar with local id `id` (see `take_for_builder`).
    pub fn progress(&mut self, id: &str) -> (r: ProgressBarBuilder<Cb>)
        requires
            old(self).wf(),
        ensures
            took_for_builder(*old(self), *final(self), id@, NodeKind::ProgressBar, r.node, r.key@),
    {
        let (node, key) = self.take_for_builder(id, NodeKind::ProgressBar);
        ProgressBarBuilder { node, key }
    }

    /// Starts configuring a slider with local id `id` (see `take_for_builder`).
    pub fn slider(&mut self, id: &str) -> (r: SliderBuilder<Cb>)
        requires
            old(self).wf(),
        ensures
            took_for_builder(*old(self), *final(self), id@, NodeKind::Slider, r.node, r.key@),
    {
        let (node, key) = self.take_for_builder(id, NodeKind::Slider);
        SliderBuilder { node, key }
    }

    /// Starts configuring a segmented selector with local id `id` (see `take_for_builder`).
    pub fn segmented(&mut self, id: &str) -> (r: SegmentedControlBuilder<Cb>)
        requires
            old(self).wf(),
        ensures
            took_for_builder(*old(self), *final(self), id@, NodeKind::SegmentedControl, r.node, r.key@),
    {
        let (node, key) = self.take_for_builder(id, NodeKind::SegmentedControl);
        SegmentedControlBuilder { node, key }
    }

    /// Starts configuring a text field with local id `id` (see `take_for_builder`).
    pub fn input(&mut self, id: &str) -> (r: InputBoxBuilder<Cb>)
        requires
            old(self).wf(),
        ensures
            took_for_builder(*old(self), *final(self), id@, NodeKind::InputBox, r.node, r.key@),
    {
        let (node, key) = self.take_for_builder(id, NodeKind::InputBox);
        InputBoxBuilder { node, key }
    }

    /// Starts configuring a dropdown with local id `id` (see `take_for_builder`).
    pub fn combo(&mut self, id: &str) -> (r: ComboBoxBuilder<Cb>)
        requires
            old(self).wf(),
        ensures
            took_for_builder(*old(self), *final(self), id@, NodeKind::ComboBox, r.node, r.key@),
    {
        let (node, key) = self.take_for_builder(id, NodeKind::ComboBox);
        ComboBoxBuilder { node, key }
    }

    /// Starts configuring a sidebar with local id `id` (see `take_for_builder`).
    pub fn sidebar(&mut self, id: &str) -> (r: SidebarBuilder<Cb>)
        requires
            old(self).wf(),
        ensures
            took_for_builder(*old(self), *final(self), id@, NodeKind::Sidebar, r.node, r.key@),
    {
        let (node, key) = self.take_for_builder(id, NodeKind::Sidebar);
        SidebarBuilder { node, key }
    }

    /// Adds `key` to the children of the open layout, if any.
    fn register_with_open_layout(&mut self, key: &String)
        requires
            old(self).open_layout_ok(),
        ensures
            final(self).layouts_view() == registered(old(self).layouts_view(), old(self).layout_stack_view(), key@),
            *final(self) == (UIContext { layouts: final(self).layouts, ..*old(self) }),
    {
        let n = self.layout_stack.len();
        if n > 0 {
            let top = self.layout_stack[n - 1];
            let ghost before = self.layouts@;
            let mut l = self.layouts.remove(top);
            let ghost old_children = l.children@;
            l.children.push(key.clone());
            proof {
                lemma_views_push(old_children, *key);
                lemma_remove_insert(before, top as int, l);
            }
            self.layouts.insert(top, l);
            assert(self.layouts_view() =~= registered(
                before.map_values(|x: LayoutSpec| layout_view(x)),
                self.layout_stack@,
                key@,
            ));
        }
    }

    /// Pushes a clip rectangle (its bounds are kept by the caller): nodes placed
    /// from now on clip to it when they clip to their parent.
    pub fn push_clip(&mut self)
        requires
            old(self).clip_depth_view() < usize::MAX,
        ensures
            final(self).clip_depth_view() == old(self).clip_depth_view() + 1,
            tree_kept(*old(self), *final(self)),
            final(self).layouts_view() == old(self).layouts_view(),
            final(self).layout_stack_view() == old(self).layout_stack_view(),
    {
        self.clip_depth = self.clip_depth + 1;
    }

    /// Pops the most recent clip rectangle, if any.
    pub fn pop_clip(&mut self)
        ensures
            final(self).clip_depth_view() == if old(self).clip_depth_view() == 0 {
                0
            } else {
                (old(self).clip_depth_view() - 1) as nat
            },
            tree_kept(*old(self), *final(self)),
            final(self).layouts_view() == old(self).layouts_view(),
            final(self).layout_stack_view() == old(self).layout_stack_view(),
    {
        if self.clip_depth > 0 {
            self.clip_depth = self.clip_depth - 1;
        }
    }

    /// Creates a layout container with the given direction and no children;
    /// returns its index.
    pub fn create_layout(&mut self, direction: FlexDirection) -> (r: usize)
        ensures
            r == old(self).layouts_view().len(),
            final(self).layouts_view() == old(self).layouts_view().push((direction, Seq::<Seq<char>>::empty())),
            tree_kept(*old(self), *final(self)),
            final(self).layout_stack_view() == old(self).layout_stack_view(),
            final(self).clip_depth_view() == old(self).clip_depth_view(),
    {
        let idx = self.layouts.len();
        let ghost before = self.layouts@;
        let l = LayoutSpec { direction, children: Vec::new() };
        assert(layout_view(l) == (direction, Seq::<Seq<char>>::empty())) by {
            assert(string_views(l.children@) =~= Seq::<Seq<char>>::empty());
        }
        self.layouts.push(l);
        assert(self.layouts_view() =~= before.map_values(|x: LayoutSpec| layout_view(x)).push(
            (direction, Seq::<Seq<char>>::empty()),
        ));
        idx
    }

    /// Opens the layout at `layout_index`: nodes built from now on become its
    /// children.
    pub fn begin_layout(&mut self, layout_index: usize)
        ensures
            final(self).layout_stack_view() == old(self).layout_stack_view().push(layout_index),
            tree_kept(*old(self), *final(self)),
            final(self).layouts_view() == old(self).layouts_view(),
            final(self).clip_depth_view() == old(self).clip_depth_view(),
    {
        self.layout_stack.push(layout_index);
    }

    /// Closes the layout at `layout_index` when it is the open one; otherwise the
    /// open layouts stay as they are.
    pub fn end_layout(&mut self, layout_index: usize)
        ensures
            final(self).layout_stack_view() == if old(self).layout_stack_view().len() > 0
                && old(self).layout_stack_view().last() == layout_index {
                old(self).layout_stack_view().drop_last()
            } else {
                old(self).layout_stack_view()
            },
            tree_kept(*old(self), *final(self)),
            final(self).layouts_view() == old(self).layouts_view(),
            final(self).clip_depth_view() == old(self).clip_depth_view(),
    {
        let n = self.layout_stack.len();
        if n > 0 && self.layout_stack[n - 1] == layout_index {
            let _ = self.layout_stack.pop();
            assert(self.layout_stack@ =~= old(self).layout_stack@.drop_last());
        }
    }

    /// The layout container at `idx`, if there is one (its children are what
    /// resolving the layout places).
    pub fn layout(&self, idx: usize) -> (r: Option<&LayoutSpec>)
        ensures
            match r {
                Some(l) => idx < self.layouts_view().len() && layout_view(*l) == self.layouts_view()[idx as int],
                None => idx >= self.layouts_view().len(),
            },
    {
        if idx < self.layouts.len() {
            Some(&self.layouts[idx])
        } else {
            None
        }
    }

    /// Sets the direction of the layout at `idx`, when there is one.
    pub fn layout_set_direction(&mut self, idx: usize, dir: FlexDirection)
        ensures
            final(self).layouts_view() == if idx < old(self).layouts_view().len() {
                old(self).layouts_view().update(idx as int, (dir, old(self).layouts_view()[idx as int].1))
            } else {
                old(self).layouts_view()
            },
            tree_kept(*old(self), *final(self)),
            final(self).layout_stack_view() == old(self).layout_stack_view(),
            final(self).clip_depth_view() == old(self).clip_depth_view(),
    {
        if idx < self.layouts.len() {
            let ghost before = self.layouts@;
            let mut l = self.layouts.remove(idx);
            l.direction = dir;
            proof {
                lemma_remove_insert(before, idx as int, l);
            }
            self.layouts.insert(idx, l);
            assert(self.layouts_view() =~= before.map_values(|x: LayoutSpec| layout_view(x)).update(
                idx as int,
                (dir, layout_view(before[idx as int]).1),
            ));
        }
    }
}

/// Taking a node out for configuration and building it leaves the finished node
/// under its key, carrying the stamp of the current pass; every other key keeps
/// its node, and no key is lost.
pub proof fn lemma_build_stores_node<Cb>(
    c0: UIContext<Cb>,
    c1: UIContext<Cb>,
    c2: UIContext<Cb>,
    id: Seq<char>,
    kind: NodeKind,
    node: UINode<Cb>,
    key: Seq<char>,
    primitive_changed: bool,
)
    requires
        took_for_builder(c0, c1, id, kind, node, key),
        returned(c1, c2, key, node, primitive_changed),
    ensures
        c2.node_view().contains_key(key),
        c2.node_view()[key] == finalized(clip_applied(node, c1.clip_depth_view() > 0), primitive_changed),
        base_of(c2.node_view()[key]).compose_stamp == c0.stamp(),
        base_of(c2.node_view()[key]).has_compose_snapshot,
        c2.node_view().dom() == c0.node_view().dom().insert(key),
        forall|k: Seq<char>| k != key && #[trigger] c0.node_view().contains_key(k)
            ==> c2.node_view()[k] == c0.node_view()[k],
{
    assert(c2.node_view().dom() =~= c0.node_view().dom().insert(key));
}

/// A node taken out and built during a pass is still retained once the pass ends
/// (`after_end` holding the nodes composed in the pass, as `end` leaves them), and
/// it is the finished node.
pub proof fn lemma_built_node_survives_end<Cb>(
    c0: UIContext<Cb>,
    c1: UIContext<Cb>,
    c2: UIContext<Cb>,
    after_end: UIContext<Cb>,
    id: Seq<char>,
    kind: NodeKind,
    node: UINode<Cb>,
    key: Seq<char>,
    primitive_changed: bool,
)
    requires
        took_for_builder(c0, c1, id, kind, node, key),
        returned(c1, c2, key, node, primitive_changed),
        after_end.node_view() == composed_only(c2.node_view(), c2.stamp()),
    ensures
        after_end.node_view().contains_key(key),
        after_end.node_view()[key] == finalized(clip_applied(node, c1.clip_depth_view() > 0), primitive_changed),
{
    lemma_build_stores_node(c0, c1, c2, id, kind, node, key, primitive_changed);
}

/// Consuming the recompose requests leaves none pending, so a second call right
/// after reports none.
pub proof fn lemma_consume_twice_finds_none<Cb>(m: Map<Seq<char>, UINode<Cb>>)
    ensures
        !any_recompose_requested(all_requests_consumed(m)),
{
    assert forall|k: Seq<char>| #[trigger] all_requests_consumed(m).contains_key(k)
        implies !base_of(all_requests_consumed(m)[k]).recompose_requested by {
        assert(base_of(request_consumed(m[k])) == (NodeBase { recompose_requested: false, ..base_of(m[k]) }));
    }
}

/// Used the usual way (a node taken out and the same node built), a context stays
/// consistent: no node is stamped later than the pass, and every node of the pass
/// is in the compose order.
pub proof fn lemma_usual_build_keeps_consistent<Cb>(
    c0: UIContext<Cb>,
    c1: UIContext<Cb>,
    c2: UIContext<Cb>,
    id: Seq<char>,
    kind: NodeKind,
    node: UINode<Cb>,
    key: Seq<char>,
    primitive_changed: bool,
)
    requires
        c0.consistent(),
        took_for_builder(c0, c1, id, kind, node, key),
        returned(c1, c2, key, node, primitive_changed),
    ensures
        c2.consistent(),
        c2.order_view().contains(key),
{
    assert(base_of(node).compose_stamp == c0.stamp());
}

/// After `end` in a consistent context, every node left was composed in the pass
/// and its key is in the compose order.
pub proof fn lemma_end_leaves_ordered_nodes<Cb>(before_end: UIContext<Cb>, after_end: UIContext<Cb>)
    requires
        before_end.consistent(),
        after_end.node_view() == composed_only(before_end.node_view(), before_end.stamp()),
        after_end.order_view() == before_end.order_view(),
    ensures
        forall|k: Seq<char>| #[trigger] after_end.node_view().contains_key(k) ==> {
            &&& base_of(after_end.node_view()[k]).compose_stamp == before_end.stamp()
            &&& after_end.order_view().contains(k)
        },
{
}

/// Ending a pass twice in a row keeps the same nodes: the nodes left by one `end`
/// were all composed in the pass.
pub proof fn lemma_end_twice_keeps_nodes<Cb>(m: Map<Seq<char>, UINode<Cb>>, stamp: u64)
    ensures
        composed_only(composed_only(m, stamp), stamp) == composed_only(m, stamp),
{
    assert(composed_only(composed_only(m, stamp), stamp) =~= composed_only(m, stamp));
}

/// A run of keys has one sorted drawing order: two sorted orders of the same keys
/// and nodes are equal.
pub proof fn lemma_sorted_segment_unique<Cb>(
    d1: Seq<Seq<char>>,
    d2: Seq<Seq<char>>,
    order: Seq<Seq<char>>,
    m: Map<Seq<char>, UINode<Cb>>,
)
    requires
        sorted_segment(d1, order, m),
        sorted_segment(d2, order, m),
    ensures
        d1 == d2,
{
    let (e1, s1, p1) = choose|entries: Seq<DrawEntry>, sorted: Seq<DrawEntry>, p: Seq<int>|
        #![trigger stable_draw_sort(entries, sorted, p)]
        entries.map_values(|e: DrawEntry| entry_view(e)) == drawable_entries(order, m)
            && stable_draw_sort(entries, sorted, p)
            && d1 == sorted.map_values(|e: DrawEntry| e.key@);
    let (e2, s2, p2) = choose|entries: Seq<DrawEntry>, sorted: Seq<DrawEntry>, p: Seq<int>|
        #![trigger stable_draw_sort(entries, sorted, p)]
        entries.map_values(|e: DrawEntry| entry_view(e)) == drawable_entries(order, m)
            && stable_draw_sort(entries, sorted, p)
            && d2 == sorted.map_values(|e: DrawEntry| e.key@);
    let v1 = e1.map_values(|e: DrawEntry| entry_view(e));
    let v2 = e2.map_values(|e: DrawEntry| entry_view(e));
    assert(v1.len() == e1.len() && v2.len() == e2.len());
    assert forall|k: int| 0 <= k < e1.len() implies #[trigger] same_draw_rank(e1[k], e2[k]) by {
        assert(v1[k] == v2[k]);
        assert(v1[k] == entry_view(e1[k]));
        assert(v2[k] == entry_view(e2[k]));
    }
    lemma_draw_sort_unique(e1, s1, p1, e2, s2, p2);
    assert forall|i: int| 0 <= i < d1.len() implies #[trigger] d1[i] == d2[i] by {
        let k = p1[i];
        assert(s1[i] == e1[k]);
        assert(s2[i] == e2[k]);
        assert(v1[k] == v2[k]);
        assert(v1[k] == entry_view(e1[k]));
        assert(v2[k] == entry_view(e2[k]));
    }
    assert(d1 =~= d2);
}

/// Every entry `drawable_entries(order, m)` lists is a key of `order` with a node in `m`,
/// paired with that node's layer and z-index.
pub proof fn lemma_drawable_entries_keys<Cb>(order: Seq<Seq<char>>, m: Map<Seq<char>, UINode<Cb>>)
    ensures
        forall|j: int| 0 <= j < drawable_entries(order, m).len() ==> {
            let e = #[trigger] drawable_entries(order, m)[j];
            &&& m.contains_key(e.0)
            &&& order.contains(e.0)
            &&& e.1 == base_of(m[e.0]).render_layer
            &&& e.2 == base_of(m[e.0]).z_index
        },
        drawable_entries(order, m).len() <= order.len(),
    decreases order.len(),
{
    if order.len() > 0 {
        let rest = order.drop_last();
        lemma_drawable_entries_keys(rest, m);
        assert forall|j: int| 0 <= j < drawable_entries(order, m).len() implies {
            let e = #[trigger] drawable_entries(order, m)[j];
            &&& m.contains_key(e.0)
            &&& order.contains(e.0)
            &&& e.1 == base_of(m[e.0]).render_layer
            &&& e.2 == base_of(m[e.0]).z_index
        } by {
            let e = drawable_entries(order, m)[j];
            if j < drawable_entries(rest, m).len() {
                assert(e == drawable_entries(rest, m)[j]);
                let i = choose|i: int| 0 <= i < rest.len() && rest[i] == e.0;
                assert(order[i] == rest[i]);
            } else {
                assert(order[order.len() - 1] == order.last());
            }
        }
    }
}

/// Every key of a sorted run belongs to the run and has a node; the sorted run is
/// no longer than the run.
pub proof fn lemma_sorted_segment_keys<Cb>(
    draw: Seq<Seq<char>>,
    order: Seq<Seq<char>>,
    m: Map<Seq<char>, UINode<Cb>>,
)
    requires
        sorted_segment(draw, order, m),
    ensures
        forall|i: int| 0 <= i < draw.len() ==> m.contains_key(#[trigger] draw[i]) && order.contains(draw[i]),
        draw.len() <= order.len(),
{
    let (entries, sorted, p) = choose|entries: Seq<DrawEntry>, sorted: Seq<DrawEntry>, p: Seq<int>|
        #![trigger stable_draw_sort(entries, sorted, p)]
        entries.map_values(|e: DrawEntry| entry_view(e)) == drawable_entries(order, m)
            && stable_draw_sort(entries, sorted, p)
            && draw == sorted.map_values(|e: DrawEntry| e.key@);
    lemma_drawable_entries_keys(order, m);
    let d = drawable_entries(order, m);
    assert(entries.map_values(|e: DrawEntry| entry_view(e)).len() == entries.len());
    assert forall|i: int| 0 <= i < draw.len() implies m.contains_key(#[trigger] draw[i]) && order.contains(draw[i]) by {
        let j = p[i];
        assert(sorted[i] == entries[j]);
        assert(entries.map_values(|e: DrawEntry| entry_view(e))[j] == entry_view(entries[j]));
        assert(d[j].0 == draw[i]);
    }
}

/// What `last_missing` finds: a position of the order (or -1) whose key has no
/// node, every later key having one.
pub proof fn lemma_last_missing<Cb>(order: Seq<Seq<char>>, m: Map<Seq<char>, UINode<Cb>>)
    ensures
        -1 <= last_missing(order, m) < order.len(),
        last_missing(order, m) >= 0 ==> !m.contains_key(order[last_missing(order, m)]),
        forall|k: int| last_missing(order, m) < k < order.len() ==> m.contains_key(#[trigger] order[k]),
    decreases order.len(),
{
    if order.len() > 0 {
        lemma_last_missing(order.drop_last(), m);
        if m.contains_key(order.last()) {
            assert forall|k: int| last_missing(order, m) < k < order.len() implies m.contains_key(#[trigger] order[k]) by {
                if k < order.len() - 1 {
                    assert(order[k] == order.drop_last()[k]);
                }
            }
        }
    }
}

proof fn lemma_last_missing_step<Cb>(order: Seq<Seq<char>>, i: int, m: Map<Seq<char>, UINode<Cb>>)
    requires
        0 <= i < order.len(),
    ensures
        last_missing(order.take(i + 1), m) == if m.contains_key(order[i]) {
            last_missing(order.take(i), m)
        } else {
            i
        },
{
    assert(order.take(i + 1).drop_last() =~= order.take(i));
    assert(order.take(i + 1).last() == order[i]);
}

proof fn lemma_drawable_all_present<Cb>(order: Seq<Seq<char>>, m: Map<Seq<char>, UINode<Cb>>)
    requires
        forall|k: int| 0 <= k < order.len() ==> m.contains_key(#[trigger] order[k]),
    ensures
        drawable_entries(order, m).len() == order.len(),
        forall|k: int| 0 <= k < order.len() ==> (#[trigger] drawable_entries(order, m)[k]).0 == order[k],
    decreases order.len(),
{
    if order.len() > 0 {
        let r = order.drop_last();
        assert forall|k: int| 0 <= k < r.len() implies m.contains_key(#[trigger] r[k]) by {
            assert(r[k] == order[k]);
        }
        lemma_drawable_all_present(r, m);
        assert(m.contains_key(order[order.len() - 1]));
        assert forall|k: int| 0 <= k < order.len() implies (#[trigger] drawable_entries(order, m)[k]).0 == order[k] by {
            if k < r.len() {
                assert(drawable_entries(order, m)[k] == drawable_entries(r, m)[k]);
                assert(r[k] == order[k]);
            }
        }
    }
}

/// An injective map of `0..n` into `0..n` reaches every position.
proof fn lemma_positions_onto(p: Seq<int>)
    requires
        forall|i: int| 0 <= i < p.len() ==> 0 <= #[trigger] p[i] < p.len(),
        forall|i: int, j: int| 0 <= i < j < p.len() ==> p[i] != p[j],
    ensures
        forall|q: int| 0 <= q < p.len() ==> #[trigger] p.contains(q),
{
    let n = p.len() as int;
    assert(p.no_duplicates());
    p.unique_seq_to_set();
    vstd::set_lib::lemma_int_range(0, n);
    let r = vstd::set_lib::set_int_range(0, n);
    assert(p.to_set().subset_of(r)) by {
        assert forall|x: int| p.to_set().contains(x) implies r.contains(x) by {
            assert(p.contains(x));
        }
    }
    vstd::set_lib::lemma_subset_equality(p.to_set(), r);
    assert forall|q: int| 0 <= q < p.len() implies #[trigger] p.contains(q) by {
        assert(r.contains(q));
        assert(p.to_set().contains(q));
    }
}

/// A sorted run of keys that all have nodes holds each of them.
proof fn lemma_sorted_segment_covers<Cb>(draw: Seq<Seq<char>>, order: Seq<Seq<char>>, m: Map<Seq<char>, UINode<Cb>>)
    requires
        sorted_segment(draw, order, m),
        forall|k: int| 0 <= k < order.len() ==> m.contains_key(#[trigger] order[k]),
    ensures
        forall|k: int| 0 <= k < order.len() ==> draw.contains(#[trigger] order[k]),
{
    let (entries, sorted, p) = choose|entries: Seq<DrawEntry>, sorted: Seq<DrawEntry>, p: Seq<int>|
        #![trigger stable_draw_sort(entries, sorted, p)]
        entries.map_values(|e: DrawEntry| entry_view(e)) == drawable_entries(order, m)
            && stable_draw_sort(entries, sorted, p)
            && draw == sorted.map_values(|e: DrawEntry| e.key@);
    lemma_drawable_all_present(order, m);
    let d = drawable_entries(order, m);
    assert(entries.map_values(|e: DrawEntry| entry_view(e)).len() == entries.len());
    lemma_positions_onto(p);
    assert forall|k: int| 0 <= k < order.len() implies draw.contains(#[trigger] order[k]) by {
        assert(p.contains(k));
        let i = choose|i: int| 0 <= i < p.len() && p[i] == k;
        assert(sorted[i] == entries[k]);
        assert(entries.map_values(|e: DrawEntry| entry_view(e))[k] == entry_view(entries[k]));
        assert(d[k].0 == order[k]);
        assert(draw[i] == order[k]);
    }
}

proof fn lemma_sorted_segment_len<Cb>(draw: Seq<Seq<char>>, seg: Seq<Seq<char>>, m: Map<Seq<char>, UINode<Cb>>)
    requires
        sorted_segment(draw, seg, m),
    ensures
        draw.len() == drawable_entries(seg, m).len(),
{
    let (entries, sorted, p) = choose|entries: Seq<DrawEntry>, sorted: Seq<DrawEntry>, p: Seq<int>|
        #![trigger stable_draw_sort(entries, sorted, p)]
        entries.map_values(|e: DrawEntry| entry_view(e)) == drawable_entries(seg, m)
            && stable_draw_sort(entries, sorted, p)
            && draw == sorted.map_values(|e: DrawEntry| e.key@);
    assert(entries.map_values(|e: DrawEntry| entry_view(e)).len() == entries.len());
}

/// A drawing order of the first `s` keys, followed by the sorted run of the keys
/// from `s` to `i` (all with nodes), is a drawing order of the first `i` keys when
/// the last key without a node lies before `s`.
proof fn lemma_draw_order_extend<Cb>(
    out: Seq<Seq<char>>,
    sk: Seq<Seq<char>>,
    order: Seq<Seq<char>>,
    s: int,
    i: int,
    m: Map<Seq<char>, UINode<Cb>>,
)
    requires
        0 <= s <= i <= order.len(),
        last_missing(order.take(i), m) == s - 1,
        is_draw_order(out, order.take(s), m),
        out.len() == s,
        sorted_segment(sk, order.subrange(s, i), m),
        forall|k: int| s <= k < i ==> m.contains_key(#[trigger] order[k]),
    ensures
        is_draw_order(out + sk, order.take(i), m),
{
    let o = order.take(i);
    let seg = order.subrange(s, i);
    assert forall|k: int| 0 <= k < seg.len() implies m.contains_key(#[trigger] seg[k]) by {
        assert(seg[k] == order[s + k]);
    }
    lemma_drawable_all_present(seg, m);
    lemma_sorted_segment_len(sk, seg, m);
    if s == 0 {
        assert(out + sk =~= sk);
        assert(o =~= seg);
    } else {
        lemma_last_missing(o, m);
        let os = order.take(s);
        assert(o[s - 1] == os[s - 1]);
        assert(os.take(s - 1) =~= order.take(s - 1));
        assert(o.take(s - 1) =~= order.take(s - 1));
        assert forall|k: int| s - 1 < k < os.len() implies m.contains_key(#[trigger] os[k]) by {}
        assert(last_missing(os, m) == s - 1) by {
            assert(os.drop_last() =~= order.take(s - 1));
            assert(os.last() == o[s - 1]);
        }
        assert((out + sk).take(s - 1) =~= out.take(s - 1));
        assert((out + sk)[s - 1] == out[s - 1]);
        assert(out.skip(s) =~= Seq::<Seq<char>>::empty());
        assert((out + sk).skip(s) =~= sk);
        assert(o.skip(s) =~= seg);
    }
}

/// A run with no keys has the empty drawing order.
proof fn lemma_empty_sorted_segment<Cb>(m: Map<Seq<char>, UINode<Cb>>)
    ensures
        sorted_segment(Seq::<Seq<char>>::empty(), Seq::<Seq<char>>::empty(), m),
{
    let e = Seq::<DrawEntry>::empty();
    let p = Seq::<int>::empty();
    assert(e.map_values(|x: DrawEntry| entry_view(x)) =~= drawable_entries(Seq::<Seq<char>>::empty(), m));
    assert(stable_draw_sort(e, e, p));
    assert(Seq::<Seq<char>>::empty() =~= e.map_values(|x: DrawEntry| x.key@));
}

/// The drawing order `end` leaves is determined by the compose order and the nodes:
/// two drawing orders of the same keys and nodes are equal.
pub proof fn lemma_draw_order_unique<Cb>(
    d1: Seq<Seq<char>>,
    d2: Seq<Seq<char>>,
    order: Seq<Seq<char>>,
    m: Map<Seq<char>, UINode<Cb>>,
)
    requires
        is_draw_order(d1, order, m),
        is_draw_order(d2, order, m),
    ensures
        d1 == d2,
    decreases order.len(),
{
    let j = last_missing(order, m);
    lemma_last_missing(order, m);
    if j < 0 {
        lemma_sorted_segment_unique(d1, d2, order, m);
    } else {
        lemma_draw_order_unique(d1.take(j), d2.take(j), order.take(j), m);
        lemma_sorted_segment_unique(d1.skip(j + 1), d2.skip(j + 1), order.skip(j + 1), m);
        assert forall|k: int| 0 <= k < d1.len() implies d1[k] == d2[k] by {
            if k < j {
                assert(d1[k] == d1.take(j)[k]);
                assert(d2[k] == d2.take(j)[k]);
            } else if k > j {
                assert(d1[k] == d1.skip(j + 1)[k - j - 1]);
                assert(d2[k] == d2.skip(j + 1)[k - j - 1]);
            }
        }
        assert(d1 =~= d2);
    }
}

/// A drawing order rearranges the compose order: it is as long, each of its keys
/// belongs to the compose order, and every key of the compose order is in it.
pub proof fn lemma_draw_order_keys_retained<Cb>(
    draw: Seq<Seq<char>>,
    order: Seq<Seq<char>>,
    m: Map<Seq<char>, UINode<Cb>>,
)
    requires
        is_draw_order(draw, order, m),
    ensures
        draw.len() == order.len(),
        forall|i: int| 0 <= i < draw.len() ==> order.contains(#[trigger] draw[i]),
        forall|k: int| 0 <= k < order.len() ==> draw.contains(#[trigger] order[k]),
    decreases order.len(),
{
    let j = last_missing(order, m);
    lemma_last_missing(order, m);
    if j < 0 {
        lemma_sorted_segment_keys(draw, order, m);
        lemma_sorted_segment_len(draw, order, m);
        assert forall|k: int| 0 <= k < order.len() implies m.contains_key(#[trigger] order[k]) by {}
        lemma_drawable_all_present(order, m);
        lemma_sorted_segment_covers(draw, order, m);
    } else {
        let pre = order.take(j);
        let post = order.skip(j + 1);
        lemma_draw_order_keys_retained(draw.take(j), pre, m);
        lemma_sorted_segment_keys(draw.skip(j + 1), post, m);
        assert forall|k: int| 0 <= k < post.len() implies m.contains_key(#[trigger] post[k]) by {
            assert(post[k] == order[k + j + 1]);
        }
        lemma_sorted_segment_covers(draw.skip(j + 1), post, m);
        assert forall|k: int| 0 <= k < order.len() implies draw.contains(#[trigger] order[k]) by {
            if k < j {
                let dt = draw.take(j);
                let key = pre[k];
                assert(order[k] == key);
                assert(dt.contains(key));
                let a = choose|a: int| 0 <= a < dt.len() && dt[a] == key;
                assert(draw[a] == dt[a]);
            } else if k == j {
                assert(draw[j] == order[j]);
            } else {
                let ds = draw.skip(j + 1);
                let key = post[k - j - 1];
                assert(order[k] == key);
                assert(ds.contains(key));
                let a = choose|a: int| 0 <= a < ds.len() && ds[a] == key;
                assert(draw[a + j + 1] == ds[a]);
            }
        }
        assert forall|i: int| 0 <= i < draw.len() implies order.contains(#[trigger] draw[i]) by {
            if i < j {
                assert(draw[i] == draw.take(j)[i]);
                assert(pre.contains(draw[i]));
                let a = choose|a: int| 0 <= a < pre.len() && pre[a] == draw[i];
                assert(order[a] == pre[a]);
            } else if i == j {
                assert(order[j] == draw[i]);
            } else {
                assert(draw[i] == draw.skip(j + 1)[i - j - 1]);
                assert(post.contains(draw[i]));
                let a = choose|a: int| 0 <= a < post.len() && post[a] == draw[i];
                assert(order[a + j + 1] == post[a]);
            }
        }
    }
}

} // verus!

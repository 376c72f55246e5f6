use vstd::prelude::*;
use vstd::slice::slice_to_vec;
use vstd::wrapping::u64_specs;
use crate::components::button::{ButtonNode, style_code, placement_code, button_defaults};
use crate::color::Color;
use crate::types::RenderLayer;
use crate::components::combo_box::ComboBoxNode;
use crate::components::input_box::InputBoxNode;
use crate::components::label::{LabelNode, label_defaults};
use crate::components::segmented_control::SegmentedControlNode;
use crate::components::sidebar::SidebarNode;

verus! {

/// Starting value of the compose hash.
pub const COMPOSE_HASH_SEED: u64 = 1469598103934665603;

/// FNV-1a multiplier.
pub const FNV_PRIME: u64 = 1099511628211;

/// One FNV-1a step: mix a byte into the hash.
pub open spec fn fnv_step(h: u64, byte: u8) -> u64 {
    u64_specs::wrapping_mul(h ^ (byte as u64), FNV_PRIME)
}

/// The hash after mixing `bytes` into `h`, first byte first.
pub open spec fn fnv_fold(h: u64, bytes: Seq<u8>) -> u64
    decreases bytes.len(),
{
    if bytes.len() == 0 {
        h
    } else {
        fnv_fold(fnv_step(h, bytes[0]), bytes.drop_first())
    }
}

/// Mixing two byte strings one after the other is mixing their concatenation.
pub proof fn lemma_fnv_fold_append(h: u64, a: Seq<u8>, b: Seq<u8>)
    ensures
        fnv_fold(h, a + b) == fnv_fold(fnv_fold(h, a), b),
    decreases a.len(),
{
    if a.len() == 0 {
        assert(a + b =~= b);
    } else {
        assert((a + b).drop_first() =~= a.drop_first() + b);
        assert((a + b)[0] == a[0]);
        lemma_fnv_fold_append(fnv_step(h, a[0]), a.drop_first(), b);
    }
}

/// The four little-endian bytes of `x`.
pub open spec fn le_bytes_u32(x: u32) -> Seq<u8> {
    seq![
        (x % 256) as u8,
        (x / 0x100 % 256) as u8,
        (x / 0x1_0000 % 256) as u8,
        (x / 0x100_0000 % 256) as u8,
    ]
}

/// The eight little-endian bytes of `x`.
pub open spec fn le_bytes_u64(x: u64) -> Seq<u8> {
    le_bytes_u32((x % 0x1_0000_0000) as u32) + le_bytes_u32((x / 0x1_0000_0000) as u32)
}

fn push_le_u32(out: &mut Vec<u8>, x: u32)
    ensures
        final(out)@ == old(out)@ + le_bytes_u32(x),
{
    out.push((x % 256) as u8);
    out.push((x / 0x100 % 256) as u8);
    out.push((x / 0x1_0000 % 256) as u8);
    out.push((x / 0x100_0000 % 256) as u8);
    assert(out@ =~= old(out)@ + le_bytes_u32(x));
}

/// A value that can be mixed into a node's compose hash.
pub trait AsComposeBytes {
    /// The bytes that stand for the value.
    spec fn compose_bytes(&self) -> Seq<u8>;

    /// The bytes that stand for the value.
    fn as_compose_bytes(&self) -> (r: Vec<u8>)
        ensures
            r@ == self.compose_bytes(),
    ;
}

impl AsComposeBytes for str {
    /// A string stands for its UTF-8 encoding.
    open spec fn compose_bytes(&self) -> Seq<u8> {
        vstd::utf8::encode_utf8(self@)
    }

    fn as_compose_bytes(&self) -> (r: Vec<u8>) {
        slice_to_vec(self.as_bytes())
    }
}


impl AsComposeBytes for String {
    /// A string stands for its UTF-8 encoding.
    open spec fn compose_bytes(&self) -> Seq<u8> {
        vstd::utf8::encode_utf8(self@)
    }

    fn as_compose_bytes(&self) -> (r: Vec<u8>) {
        slice_to_vec(self.as_str().as_bytes())
    }
}

impl AsComposeBytes for [u8] {
    /// Raw bytes stand for themselves.
    open spec fn compose_bytes(&self) -> Seq<u8> {
        self@
    }

    fn as_compose_bytes(&self) -> (r: Vec<u8>) {
        slice_to_vec(self)
    }
}

impl AsComposeBytes for bool {
    /// `true` stands for the byte 1, `false` for the byte 0.
    open spec fn compose_bytes(&self) -> Seq<u8> {
        if *self { seq![1u8] } else { seq![0u8] }
    }

    fn as_compose_bytes(&self) -> (r: Vec<u8>) {
        let mut v: Vec<u8> = Vec::new();
        if *self {
            v.push(1u8);
        } else {
            v.push(0u8);
        }
        assert(v@ =~= self.compose_bytes());
        v
    }
}

impl AsComposeBytes for u32 {
    /// An integer stands for its little-endian bytes.
    open spec fn compose_bytes(&self) -> Seq<u8> {
        le_bytes_u32(*self)
    }

    fn as_compose_bytes(&self) -> (r: Vec<u8>) {
        let mut v: Vec<u8> = Vec::new();
        push_le_u32(&mut v, *self);
        assert(v@ =~= self.compose_bytes());
        v
    }
}

impl AsComposeBytes for i32 {
    /// An integer stands for the little-endian bytes of its two's-complement form.
    open spec fn compose_bytes(&self) -> Seq<u8> {
        le_bytes_u32(*self as u32)
    }

    fn as_compose_bytes(&self) -> (r: Vec<u8>) {
        let mut v: Vec<u8> = Vec::new();
        push_le_u32(&mut v, *self as u32);
        assert(v@ =~= self.compose_bytes());
        v
    }
}

impl AsComposeBytes for u64 {
    /// An integer stands for its little-endian bytes.
    open spec fn compose_bytes(&self) -> Seq<u8> {
        le_bytes_u64(*self)
    }

    fn as_compose_bytes(&self) -> (r: Vec<u8>) {
        let mut v: Vec<u8> = Vec::new();
        let x = *self;
        push_le_u32(&mut v, (x % 0x1_0000_0000) as u32);
        push_le_u32(&mut v, (x / 0x1_0000_0000) as u32);
        v
    }
}

/// Compose-tracking state that every retained node carries: the stamp of the last
/// compose pass it took part in, the hash of what that pass built, the hash of the
/// last finished pass, the cache and recompose flags, the render layer and
/// z-index its primitive is drawn with, whether it is clipped to its parent's clip
/// rectangle, and whether a clip rectangle applies to it.
pub struct NodeBase {
    pub key: String,
    pub render_layer: RenderLayer,
    pub z_index: i32,
    pub clip_to_parent: bool,
    pub has_clip_rect: bool,
    pub compose_stamp: u64,
    pub compose_build_hash: u64,
    pub composed_hash: u64,
    pub has_compose_snapshot: bool,
    pub cache_dirty: bool,
    pub recompose_requested: bool,
}

/// A node that was never composed: content layer, z-index 0, clipped to its parent
/// but without a clip rectangle, stamp 0, seed hash, no snapshot, cache dirty, no
/// recompose request.
pub open spec fn is_fresh(n: NodeBase) -> bool {
    &&& n.render_layer == RenderLayer::Content
    &&& n.z_index == 0
    &&& n.clip_to_parent
    &&& !n.has_clip_rect
    &&& n.compose_stamp == 0
    &&& n.compose_build_hash == COMPOSE_HASH_SEED
    &&& n.composed_hash == 0
    &&& !n.has_compose_snapshot
    &&& n.cache_dirty
    &&& !n.recompose_requested
}

/// The state with the render layer replaced.
pub open spec fn layered(n: NodeBase, layer: RenderLayer) -> NodeBase {
    NodeBase { render_layer: layer, ..n }
}

/// The state with the z-index replaced.
pub open spec fn z_indexed(n: NodeBase, z_index: i32) -> NodeBase {
    NodeBase { z_index, ..n }
}

/// The state after `begin_compose(stamp)`.
pub open spec fn begun(n: NodeBase, stamp: u64) -> NodeBase {
    NodeBase { compose_stamp: stamp, compose_build_hash: COMPOSE_HASH_SEED, recompose_requested: false, ..n }
}

/// The state after mixing `bytes` into the build hash.
pub open spec fn with_bytes(n: NodeBase, bytes: Seq<u8>) -> NodeBase {
    NodeBase { compose_build_hash: fnv_fold(n.compose_build_hash, bytes), ..n }
}

/// Whether finishing a pass marks the cache dirty: the first pass always does, later
/// passes do when the primitive or the build hash changed.
pub open spec fn finish_marks_dirty(n: NodeBase, primitive_changed: bool) -> bool {
    !n.has_compose_snapshot || primitive_changed || n.compose_build_hash != n.composed_hash
}

/// The state after `finish_compose(primitive_changed)`.
pub open spec fn finished(n: NodeBase, primitive_changed: bool) -> NodeBase {
    NodeBase {
        cache_dirty: n.cache_dirty || finish_marks_dirty(n, primitive_changed),
        composed_hash: n.compose_build_hash,
        has_compose_snapshot: true,
        ..n
    }
}

impl NodeBase {
    /// A node that has never been composed: stamp 0, seed hash, no snapshot,
    /// cache dirty, no recompose request.
    pub fn new(key: String) -> (n: NodeBase)
        ensures
            n.key@ == key@,
            is_fresh(n),
    {
        NodeBase {
            key,
            render_layer: RenderLayer::Content,
            z_index: 0,
            clip_to_parent: true,
            has_clip_rect: false,
            compose_stamp: 0,
            compose_build_hash: COMPOSE_HASH_SEED,
            composed_hash: 0,
            has_compose_snapshot: false,
            cache_dirty: true,
            recompose_requested: false,
        }
    }

    /// Begins a compose pass: records the stamp, resets the build hash and clears
    /// the recompose request.
    pub fn begin_compose(&mut self, stamp: u64)
        ensures
            *final(self) == begun(*old(self), stamp),
    {
        self.compose_stamp = stamp;
        self.compose_build_hash = COMPOSE_HASH_SEED;
        self.recompose_requested = false;
    }

    /// Sets the render layer.
    pub fn set_render_layer(&mut self, layer: RenderLayer)
        ensures
            *final(self) == layered(*old(self), layer),
    {
        self.render_layer = layer;
    }

    /// Sets the z-index.
    pub fn set_z_index(&mut self, z_index: i32)
        ensures
            *final(self) == z_indexed(*old(self), z_index),
    {
        self.z_index = z_index;
    }

    /// Finishes a compose pass. `primitive_changed` says whether the node's primitive
    /// differs from the one recorded when the previous pass finished; the cache is
    /// marked dirty on the first pass and whenever the primitive or the build hash
    /// changed, and the build hash becomes the recorded one.
    pub fn finish_compose(&mut self, primitive_changed: bool)
        ensures
            *final(self) == finished(*old(self), primitive_changed),
    {
        let hash_changed = self.compose_build_hash != self.composed_hash;
        if !self.has_compose_snapshot || primitive_changed || hash_changed {
            self.cache_dirty = true;
        }
        self.composed_hash = self.compose_build_hash;
        self.has_compose_snapshot = true;
    }

    /// Was this node composed in the pass with the given stamp?
    pub fn composed_in(&self, stamp: u64) -> (r: bool)
        ensures
            r == (self.compose_stamp == stamp),
    {
        self.compose_stamp == stamp
    }

    /// Mixes raw bytes into the build hash (FNV-1a).
    pub fn track_compose_bytes(&mut self, data: &[u8])
        ensures
            *final(self) == with_bytes(*old(self), data@),
    {
        let n = data.len();
        let mut i: usize = 0;
        assert(data@.skip(0) =~= data@);
        while i < n
            invariant
                n == data@.len(),
                i <= n,
                fnv_fold(self.compose_build_hash, data@.skip(i as int))
                    == fnv_fold(old(self).compose_build_hash, data@),
                *self == (NodeBase { compose_build_hash: self.compose_build_hash, ..*old(self) }),
            decreases n - i,
        {
            let byte = data[i];
            assert(data@.skip(i as int).drop_first() =~= data@.skip(i as int + 1));
            self.compose_build_hash = (self.compose_build_hash ^ (byte as u64)).wrapping_mul(FNV_PRIME);
            i = i + 1;
        }
        assert(data@.skip(n as int) =~= Seq::<u8>::empty());
    }

    /// Mixes a tag and then a value into the build hash.
    pub fn track_compose_value<T: AsComposeBytes + ?Sized>(&mut self, tag: &str, value: &T)
        ensures
            *final(self) == with_bytes(
                *old(self),
                vstd::utf8::encode_utf8(tag@) + value.compose_bytes(),
            ),
    {
        let tag_bytes = tag.as_bytes();
        self.track_compose_bytes(tag_bytes);
        let value_bytes = value.as_compose_bytes();
        self.track_compose_bytes(value_bytes.as_slice());
        proof {
            lemma_fnv_fold_append(
                old(self).compose_build_hash,
                vstd::utf8::encode_utf8(tag@),
                value.compose_bytes(),
            );
        }
    }

    /// Mixes a tag alone into the build hash.
    pub fn track_compose_marker(&mut self, tag: &str)
        ensures
            *final(self) == with_bytes(*old(self), vstd::utf8::encode_utf8(tag@)),
    {
        self.track_compose_bytes(tag.as_bytes());
    }

    /// Forces the visual cache to be considered dirty.
    pub fn force_compose_dirty(&mut self)
        ensures
            *final(self) == (NodeBase { cache_dirty: true, ..*old(self) }),
    {
        self.cache_dirty = true;
    }

    /// Requests a visual repaint (marks the cache dirty).
    pub fn request_visual_repaint(&mut self)
        ensures
            *final(self) == (NodeBase { cache_dirty: true, ..*old(self) }),
    {
        self.cache_dirty = true;
    }

    /// Requests a full compose rebuild on the next frame (and marks the cache dirty).
    pub fn request_compose_rebuild(&mut self)
        ensures
            *final(self) == (NodeBase { recompose_requested: true, cache_dirty: true, ..*old(self) }),
    {
        self.recompose_requested = true;
        self.cache_dirty = true;
    }

    /// Returns whether a recompose was requested, and clears the request.
    pub fn consume_recompose_request(&mut self) -> (r: bool)
        ensures
            r == old(self).recompose_requested,
            *final(self) == (NodeBase { recompose_requested: false, ..*old(self) }),
    {
        if !self.recompose_requested {
            return false;
        }
        self.recompose_requested = false;
        true
    }
}


/// Tracking two byte strings one after the other is tracking their concatenation.
pub proof fn lemma_track_twice(n: NodeBase, a: Seq<u8>, b: Seq<u8>)
    ensures
        with_bytes(with_bytes(n, a), b) == with_bytes(n, a + b),
{
    lemma_fnv_fold_append(n.compose_build_hash, a, b);
}

/// A compose pass (begin, track `bytes`, finish) that tracks the same bytes as the
/// last finished pass, with an unchanged primitive, leaves the cache flag and the
/// recorded hash as they were.
pub proof fn lemma_unchanged_pass_keeps_cache(n: NodeBase, stamp: u64, bytes: Seq<u8>)
    requires
        n.has_compose_snapshot,
        n.composed_hash == fnv_fold(COMPOSE_HASH_SEED, bytes),
    ensures
        finished(with_bytes(begun(n, stamp), bytes), false).cache_dirty == n.cache_dirty,
        finished(with_bytes(begun(n, stamp), bytes), false).composed_hash == n.composed_hash,
        finished(with_bytes(begun(n, stamp), bytes), false).compose_stamp == stamp,
{
}

/// A compose pass whose tracked bytes hash differently from the last finished pass,
/// or whose primitive changed, or that is the node's first pass, leaves the cache dirty.
pub proof fn lemma_changed_pass_marks_dirty(
    n: NodeBase,
    stamp: u64,
    bytes: Seq<u8>,
    primitive_changed: bool,
)
    requires
        !n.has_compose_snapshot || primitive_changed
            || n.composed_hash != fnv_fold(COMPOSE_HASH_SEED, bytes),
    ensures
        finished(with_bytes(begun(n, stamp), bytes), primitive_changed).cache_dirty,
        finished(with_bytes(begun(n, stamp), bytes), primitive_changed).composed_hash
            == fnv_fold(COMPOSE_HASH_SEED, bytes),
{
}

/// A retained UI node of any kind. Panels, glass panels, progress bars and sliders
/// carry only their compose-tracking state here.
pub enum UINode<Cb> {
    Label(LabelNode),
    Button(ButtonNode<Cb>),
    Panel(NodeBase),
    GlassPanel(NodeBase),
    ProgressBar(NodeBase),
    Slider(NodeBase),
    SegmentedControl(SegmentedControlNode<Cb>),
    InputBox(InputBoxNode<Cb>),
    ComboBox(ComboBoxNode<Cb>),
    Sidebar(SidebarNode<Cb>),
}

/// A tag's UTF-8 bytes followed by a value's bytes.
pub open spec fn tagged(tag: Seq<char>, value: Seq<u8>) -> Seq<u8> {
    vstd::utf8::encode_utf8(tag) + value
}

/// The four channels of a color, each tagged.
pub open spec fn color_bytes(tags: Seq<Seq<char>>, c: Color) -> Seq<u8> {
    tagged(tags[0], le_bytes_u32(c.r)) + tagged(tags[1], le_bytes_u32(c.g))
        + tagged(tags[2], le_bytes_u32(c.b)) + tagged(tags[3], le_bytes_u32(c.a))
}

/// What a label mixes into its compose hash: its text, its font size, whether it
/// uses the theme color, and its own color when it does not.
pub open spec fn label_compose_bytes(l: LabelNode) -> Seq<u8> {
    tagged("text"@, vstd::utf8::encode_utf8(l.text@))
        + tagged("font_size"@, le_bytes_u32(l.font_size))
        + tagged("use_theme_color"@, if l.use_theme_color { seq![1u8] } else { seq![0u8] })
        + if l.use_theme_color {
            Seq::<u8>::empty()
        } else {
            color_bytes(seq!["color_r"@, "color_g"@, "color_b"@, "color_a"@], l.color)
        }
}

/// What a button mixes into its compose hash: text, icon, font size, style, icon
/// placement, whether the text color is overridden, the override color, and the
/// idle and hovered scales.
pub open spec fn button_compose_bytes<Cb>(b: ButtonNode<Cb>) -> Seq<u8> {
    tagged("text"@, vstd::utf8::encode_utf8(b.text@))
        + tagged("icon"@, vstd::utf8::encode_utf8(b.icon@))
        + tagged("font_size"@, le_bytes_u32(b.font_size))
        + tagged("style"@, le_bytes_u32(style_code(b.style)))
        + tagged("icon_placement"@, le_bytes_u32(placement_code(b.icon_placement)))
        + tagged("text_color_override"@, if b.text_color_override is Some { seq![1u8] } else { seq![0u8] })
        + match b.text_color_override {
            Some(c) => color_bytes(seq!["text_color_r"@, "text_color_g"@, "text_color_b"@, "text_color_a"@], c),
            None => Seq::<u8>::empty(),
        }
        + tagged("hover_scale_idle"@, le_bytes_u32(b.hover_scale_idle))
        + tagged("hover_scale_hover"@, le_bytes_u32(b.hover_scale_hover))
}

/// What a node mixes into its compose hash when a pass finishes (the other kinds
/// mix in nothing of their own).
pub open spec fn node_compose_bytes<Cb>(node: UINode<Cb>) -> Seq<u8> {
    match node {
        UINode::Label(l) => label_compose_bytes(l),
        UINode::Button(b) => button_compose_bytes(b),
        _ => Seq::<u8>::empty(),
    }
}

/// `node` with its compose-tracking state replaced by `base`.
pub open spec fn with_base<Cb>(node: UINode<Cb>, base: NodeBase) -> UINode<Cb> {
    match node {
        UINode::Label(n) => UINode::Label(LabelNode { base, ..n }),
        UINode::Button(n) => UINode::Button(ButtonNode { base, ..n }),
        UINode::Panel(_) => UINode::Panel(base),
        UINode::GlassPanel(_) => UINode::GlassPanel(base),
        UINode::ProgressBar(_) => UINode::ProgressBar(base),
        UINode::Slider(_) => UINode::Slider(base),
        UINode::SegmentedControl(n) => UINode::SegmentedControl(SegmentedControlNode { base, ..n }),
        UINode::InputBox(n) => UINode::InputBox(InputBoxNode { base, ..n }),
        UINode::ComboBox(n) => UINode::ComboBox(ComboBoxNode { base, ..n }),
        UINode::Sidebar(n) => UINode::Sidebar(SidebarNode { base, ..n }),
    }
}

fn track_color(base: &mut NodeBase, tr: &str, tg: &str, tb: &str, ta: &str, c: Color)
    ensures
        *final(base) == with_bytes(*old(base), color_bytes(seq![tr@, tg@, tb@, ta@], c)),
{
    base.track_compose_value(tr, &c.r);
    base.track_compose_value(tg, &c.g);
    base.track_compose_value(tb, &c.b);
    base.track_compose_value(ta, &c.a);
    proof {
        let h0 = old(base).compose_build_hash;
        let a = tagged(tr@, le_bytes_u32(c.r));
        let b = tagged(tg@, le_bytes_u32(c.g));
        let cc = tagged(tb@, le_bytes_u32(c.b));
        let d = tagged(ta@, le_bytes_u32(c.a));
        lemma_fnv_fold_append(h0, a, b);
        lemma_fnv_fold_append(h0, a + b, cc);
        lemma_fnv_fold_append(h0, a + b + cc, d);
        assert(color_bytes(seq![tr@, tg@, tb@, ta@], c) == a + b + cc + d);
    }
}

fn finish_label(l: &mut LabelNode, primitive_changed: bool)
    ensures
        *final(l) == (LabelNode {
            base: finished(with_bytes(old(l).base, label_compose_bytes(*old(l))), primitive_changed),
            ..*old(l)
        }),
{
    let ghost b0 = l.base;
    l.base.track_compose_value("text", &l.text);
    l.base.track_compose_value("font_size", &l.font_size);
    l.base.track_compose_value("use_theme_color", &l.use_theme_color);
    if !l.use_theme_color {
        track_color(&mut l.base, "color_r", "color_g", "color_b", "color_a", l.color);
    }
    proof {
        let h = b0.compose_build_hash;
        let x = tagged("text"@, vstd::utf8::encode_utf8(l.text@));
        let f = tagged("font_size"@, le_bytes_u32(l.font_size));
        let y = tagged("use_theme_color"@, if l.use_theme_color { seq![1u8] } else { seq![0u8] });
        let z = if l.use_theme_color {
            Seq::<u8>::empty()
        } else {
            color_bytes(seq!["color_r"@, "color_g"@, "color_b"@, "color_a"@], l.color)
        };
        lemma_fnv_fold_append(h, x, f);
        lemma_fnv_fold_append(h, x + f, y);
        lemma_fnv_fold_append(h, x + f + y, z);
        if l.use_theme_color {
            assert(x + f + y + z =~= x + f + y);
        }
    }
    l.base.finish_compose(primitive_changed);
}

#[verifier::rlimit(50)]
fn finish_button<Cb>(b: &mut ButtonNode<Cb>, primitive_changed: bool)
    ensures
        *final(b) == (ButtonNode {
            base: finished(with_bytes(old(b).base, button_compose_bytes(*old(b))), primitive_changed),
            ..*old(b)
        }),
{
    let ghost b0 = b.base;
    b.base.track_compose_value("text", &b.text);
    b.base.track_compose_value("icon", &b.icon);
    b.base.track_compose_value("font_size", &b.font_size);
    b.base.track_compose_value("style", &b.style.code());
    b.base.track_compose_value("icon_placement", &b.icon_placement.code());
    b.base.track_compose_value("text_color_override", &b.text_color_override.is_some());
    match b.text_color_override {
        Some(color) => {
            track_color(&mut b.base, "text_color_r", "text_color_g", "text_color_b", "text_color_a", color);
        },
        None => {},
    }
    let ghost b1 = b.base;
    b.base.track_compose_value("hover_scale_idle", &b.hover_scale_idle);
    b.base.track_compose_value("hover_scale_hover", &b.hover_scale_hover);
    proof {
        let h = b0.compose_build_hash;
        let p1 = tagged("text"@, vstd::utf8::encode_utf8(b.text@));
        let p2 = tagged("icon"@, vstd::utf8::encode_utf8(b.icon@));
        let pf = tagged("font_size"@, le_bytes_u32(b.font_size));
        let p3 = tagged("style"@, le_bytes_u32(style_code(b.style)));
        let p4 = tagged("icon_placement"@, le_bytes_u32(placement_code(b.icon_placement)));
        let p5 = tagged("text_color_override"@, if b.text_color_override is Some { seq![1u8] } else { seq![0u8] });
        let p6 = match b.text_color_override {
            Some(c) => color_bytes(seq!["text_color_r"@, "text_color_g"@, "text_color_b"@, "text_color_a"@], c),
            None => Seq::<u8>::empty(),
        };
        let p7 = tagged("hover_scale_idle"@, le_bytes_u32(b.hover_scale_idle));
        let p8 = tagged("hover_scale_hover"@, le_bytes_u32(b.hover_scale_hover));
        let q = p1 + p2 + pf + p3 + p4 + p5 + p6;
        lemma_fnv_fold_append(h, p1, p2);
        lemma_fnv_fold_append(h, p1 + p2, pf);
        lemma_fnv_fold_append(h, p1 + p2 + pf, p3);
        lemma_fnv_fold_append(h, p1 + p2 + pf + p3, p4);
        lemma_fnv_fold_append(h, p1 + p2 + pf + p3 + p4, p5);
        lemma_fnv_fold_append(h, p1 + p2 + pf + p3 + p4 + p5, p6);
        if b.text_color_override is None {
            assert(p1 + p2 + pf + p3 + p4 + p5 + p6 =~= p1 + p2 + pf + p3 + p4 + p5);
        }
        assert(b1.compose_build_hash == fnv_fold(h, q));
        lemma_fnv_fold_append(h, q, p7);
        lemma_fnv_fold_append(h, q + p7, p8);
        assert(button_compose_bytes(*old(b)) == q + p7 + p8);
    }
    b.base.finish_compose(primitive_changed);
}

/// The node after finishing its compose pass: its own configuration is mixed into
/// the build hash, then the pass is finished on its compose-tracking state.
pub open spec fn finalized<Cb>(node: UINode<Cb>, primitive_changed: bool) -> UINode<Cb> {
    with_base(node, finished(with_bytes(base_of(node), node_compose_bytes(node)), primitive_changed))
}

/// The node with its visual cache marked dirty.
pub open spec fn marked_dirty<Cb>(node: UINode<Cb>) -> UINode<Cb> {
    with_base(node, NodeBase { cache_dirty: true, ..base_of(node) })
}

/// The node with its recompose request cleared.
pub open spec fn request_consumed<Cb>(node: UINode<Cb>) -> UINode<Cb> {
    with_base(node, NodeBase { recompose_requested: false, ..base_of(node) })
}

/// The node once the context's clip is applied: a clip rectangle applies exactly
/// when the node is inside a clip (`inside_clip`) and clips to its parent.
pub open spec fn clip_applied<Cb>(node: UINode<Cb>, inside_clip: bool) -> UINode<Cb> {
    with_base(node, NodeBase { has_clip_rect: inside_clip && base_of(node).clip_to_parent, ..base_of(node) })
}

/// A node created during the pass with `stamp` and not finished yet: as `is_fresh`,
/// but carrying that stamp.
pub open spec fn fresh_in(n: NodeBase, stamp: u64) -> bool {
    is_fresh(NodeBase { compose_stamp: 0, ..n }) && n.compose_stamp == stamp
}

/// Rebuilding a node whose configuration is unchanged since its last finished pass,
/// with an unchanged primitive, leaves its visual cache flag and its recorded hash
/// as they were.
pub proof fn lemma_rebuild_unchanged_keeps_cache<Cb>(n: UINode<Cb>, stamp: u64)
    requires
        base_of(n).has_compose_snapshot,
        base_of(n).composed_hash == fnv_fold(COMPOSE_HASH_SEED, node_compose_bytes(n)),
    ensures
        base_of(finalized(with_base(n, begun(base_of(n), stamp)), false)).cache_dirty
            == base_of(n).cache_dirty,
        base_of(finalized(with_base(n, begun(base_of(n), stamp)), false)).composed_hash
            == base_of(n).composed_hash,
{
    let b = begun(base_of(n), stamp);
    assert(node_compose_bytes(with_base(n, b)) == node_compose_bytes(n));
    assert(base_of(with_base(n, b)) == b);
}

/// Building a node whose configuration changed since its last finished pass, so that
/// its bytes hash differently, leaves its visual cache dirty.
pub proof fn lemma_rebuild_changed_marks_dirty<Cb>(n: UINode<Cb>, stamp: u64, primitive_changed: bool)
    requires
        base_of(n).composed_hash != fnv_fold(COMPOSE_HASH_SEED, node_compose_bytes(n)),
    ensures
        base_of(finalized(with_base(n, begun(base_of(n), stamp)), primitive_changed)).cache_dirty,
{
    let b = begun(base_of(n), stamp);
    assert(node_compose_bytes(with_base(n, b)) == node_compose_bytes(n));
    assert(base_of(with_base(n, b)) == b);
}

/// The kinds of node a context can create.
#[derive(Debug, Clone, Copy, PartialEq, Eq, Structural)]
pub enum NodeKind {
    Label,
    Button,
    Panel,
    GlassPanel,
    ProgressBar,
    Slider,
    SegmentedControl,
    InputBox,
    ComboBox,
    Sidebar,
}

/// The kind of a node.
pub open spec fn kind_of<Cb>(node: UINode<Cb>) -> NodeKind {
    match node {
        UINode::Label(_) => NodeKind::Label,
        UINode::Button(_) => NodeKind::Button,
        UINode::Panel(_) => NodeKind::Panel,
        UINode::GlassPanel(_) => NodeKind::GlassPanel,
        UINode::ProgressBar(_) => NodeKind::ProgressBar,
        UINode::Slider(_) => NodeKind::Slider,
        UINode::SegmentedControl(_) => NodeKind::SegmentedControl,
        UINode::InputBox(_) => NodeKind::InputBox,
        UINode::ComboBox(_) => NodeKind::ComboBox,
        UINode::Sidebar(_) => NodeKind::Sidebar,
    }
}

/// The configuration a node of its kind has before a compose pass sets anything.
pub open spec fn node_defaults<Cb>(node: UINode<Cb>) -> bool {
    match node {
        UINode::Label(n) => label_defaults(n),
        UINode::Button(n) => button_defaults(n),
        UINode::SegmentedControl(n) => n.items@.len() == 0 && n.selected_index == 0 && n.on_change is None,
        UINode::InputBox(n) => {
            &&& n.placeholder@ == Seq::<char>::empty()
            &&& n.text@ == Seq::<char>::empty()
            &&& n.on_change is None
            &&& n.on_enter is None
            &&& !n.is_focused
            &&& n.cursor_position == 0
            &&& n.cursor_visible
        },
        UINode::ComboBox(n) => {
            &&& n.items@.len() == 0
            &&& n.placeholder@ == Seq::<char>::empty()
            &&& n.selected_index == -1
            &&& n.on_change is None
            &&& !n.is_open
            &&& !n.open_state_initialized
        },
        UINode::Sidebar(n) => {
            &&& n.brand_primary@ == Seq::<char>::empty()
            &&& n.brand_secondary@ == Seq::<char>::empty()
            &&& n.selected_index == 0
            &&& n.items@.len() == 0
            &&& n.on_theme_toggle is None
        },
        _ => true,
    }
}

/// A fresh node of the given kind under `key`, with that kind's default configuration.
pub fn make_node<Cb>(kind: NodeKind, key: String) -> (n: UINode<Cb>)
    ensures
        kind_of(n) == kind,
        base_of(n).key@ == key@,
        is_fresh(base_of(n)),
        node_defaults(n),
{
    match kind {
        NodeKind::Label => UINode::Label(LabelNode::new(key)),
        NodeKind::Button => UINode::Button(ButtonNode::new(key)),
        NodeKind::Panel => UINode::Panel(NodeBase::new(key)),
        NodeKind::GlassPanel => UINode::GlassPanel(NodeBase::new(key)),
        NodeKind::ProgressBar => UINode::ProgressBar(NodeBase::new(key)),
        NodeKind::Slider => UINode::Slider(NodeBase::new(key)),
        NodeKind::SegmentedControl => UINode::SegmentedControl(SegmentedControlNode::new(key)),
        NodeKind::InputBox => UINode::InputBox(InputBoxNode::new(key)),
        NodeKind::ComboBox => UINode::ComboBox(ComboBoxNode::new(key)),
        NodeKind::Sidebar => UINode::Sidebar(SidebarNode::new(key)),
    }
}

/// The compose-tracking state of a node of any kind.
pub open spec fn base_of<Cb>(node: UINode<Cb>) -> NodeBase {
    match node {
        UINode::Label(n) => n.base,
        UINode::Button(n) => n.base,
        UINode::Panel(b) => b,
        UINode::GlassPanel(b) => b,
        UINode::ProgressBar(b) => b,
        UINode::Slider(b) => b,
        UINode::SegmentedControl(n) => n.base,
        UINode::InputBox(n) => n.base,
        UINode::ComboBox(n) => n.base,
        UINode::Sidebar(n) => n.base,
    }
}

impl<Cb> UINode<Cb> {
    /// Static type name for this node kind.
    pub fn kind_name(&self) -> (r: &'static str)
        ensures
            r@ == match *self {
                UINode::Label(_) => "Label"@,
                UINode::Button(_) => "Button"@,
                UINode::Panel(_) => "Panel"@,
                UINode::GlassPanel(_) => "GlassPanel"@,
                UINode::ProgressBar(_) => "ProgressBar"@,
                UINode::Slider(_) => "Slider"@,
                UINode::SegmentedControl(_) => "SegmentedControl"@,
                UINode::InputBox(_) => "InputBox"@,
                UINode::ComboBox(_) => "ComboBox"@,
                UINode::Sidebar(_) => "Sidebar"@,
            },
    {
        match self {
            UINode::Label(_) => "Label",
            UINode::Button(_) => "Button",
            UINode::Panel(_) => "Panel",
            UINode::GlassPanel(_) => "GlassPanel",
            UINode::ProgressBar(_) => "ProgressBar",
            UINode::Slider(_) => "Slider",
            UINode::SegmentedControl(_) => "SegmentedControl",
            UINode::InputBox(_) => "InputBox",
            UINode::ComboBox(_) => "ComboBox",
            UINode::Sidebar(_) => "Sidebar",
        }
    }

    /// The node's compose-tracking state.
    pub fn base(&self) -> (r: &NodeBase)
        ensures
            *r == base_of(*self),
    {
        match self {
            UINode::Label(n) => &n.base,
            UINode::Button(n) => &n.base,
            UINode::Panel(b) => b,
            UINode::GlassPanel(b) => b,
            UINode::ProgressBar(b) => b,
            UINode::Slider(b) => b,
            UINode::SegmentedControl(n) => &n.base,
            UINode::InputBox(n) => &n.base,
            UINode::ComboBox(n) => &n.base,
            UINode::Sidebar(n) => &n.base,
        }
    }

    /// Unique key identifying this node instance.
    pub fn key(&self) -> (r: &str)
        ensures
            r@ == base_of(*self).key@,
    {
        self.base().key.as_str()
    }

    /// Was this node composed in the pass with the given stamp?
    pub fn composed_in(&self, stamp: u64) -> (r: bool)
        ensures
            r == (base_of(*self).compose_stamp == stamp),
    {
        self.base().composed_in(stamp)
    }

    /// Finishes a compose pass: mixes the node's own configuration into the build
    /// hash, then finishes the pass on its compose-tracking state.
    #[verifier::rlimit(60)]
    pub fn finish_compose(&mut self, primitive_changed: bool)
        ensures
            *final(self) == finalized(*old(self), primitive_changed),
    {
        match self {
            UINode::Label(l) => finish_label(l, primitive_changed),
            UINode::Button(b) => finish_button(b, primitive_changed),
            UINode::Panel(base) => base.finish_compose(primitive_changed),
            UINode::GlassPanel(base) => base.finish_compose(primitive_changed),
            UINode::ProgressBar(base) => base.finish_compose(primitive_changed),
            UINode::Slider(base) => base.finish_compose(primitive_changed),
            UINode::SegmentedControl(n) => n.base.finish_compose(primitive_changed),
            UINode::InputBox(n) => n.base.finish_compose(primitive_changed),
            UINode::ComboBox(n) => n.base.finish_compose(primitive_changed),
            UINode::Sidebar(n) => n.base.finish_compose(primitive_changed),
        }
    }

    /// Sets the render layer the node is drawn in.
    #[verifier::rlimit(60)]
    pub fn set_render_layer(&mut self, layer: RenderLayer)
        ensures
            *final(self) == with_base(*old(self), layered(base_of(*old(self)), layer)),
    {
        match self {
            UINode::Label(n) => n.base.set_render_layer(layer),
            UINode::Button(n) => n.base.set_render_layer(layer),
            UINode::Panel(b) => b.set_render_layer(layer),
            UINode::GlassPanel(b) => b.set_render_layer(layer),
            UINode::ProgressBar(b) => b.set_render_layer(layer),
            UINode::Slider(b) => b.set_render_layer(layer),
            UINode::SegmentedControl(n) => n.base.set_render_layer(layer),
            UINode::InputBox(n) => n.base.set_render_layer(layer),
            UINode::ComboBox(n) => n.base.set_render_layer(layer),
            UINode::Sidebar(n) => n.base.set_render_layer(layer),
        }
    }

    /// Sets the z-index the node is drawn with within its layer.
    #[verifier::rlimit(60)]
    pub fn set_z_index(&mut self, z_index: i32)
        ensures
            *final(self) == with_base(*old(self), z_indexed(base_of(*old(self)), z_index)),
    {
        match self {
            UINode::Label(n) => n.base.set_z_index(z_index),
            UINode::Button(n) => n.base.set_z_index(z_index),
            UINode::Panel(b) => b.set_z_index(z_index),
            UINode::GlassPanel(b) => b.set_z_index(z_index),
            UINode::ProgressBar(b) => b.set_z_index(z_index),
            UINode::Slider(b) => b.set_z_index(z_index),
            UINode::SegmentedControl(n) => n.base.set_z_index(z_index),
            UINode::InputBox(n) => n.base.set_z_index(z_index),
            UINode::ComboBox(n) => n.base.set_z_index(z_index),
            UINode::Sidebar(n) => n.base.set_z_index(z_index),
        }
    }

    /// Begins a compose pass on the node's compose-tracking state.
    #[verifier::rlimit(60)]
    pub fn begin_compose(&mut self, stamp: u64)
        ensures
            *final(self) == with_base(*old(self), begun(base_of(*old(self)), stamp)),
    {
        match self {
            UINode::Label(n) => n.base.begin_compose(stamp),
            UINode::Button(n) => n.base.begin_compose(stamp),
            UINode::Panel(b) => b.begin_compose(stamp),
            UINode::GlassPanel(b) => b.begin_compose(stamp),
            UINode::ProgressBar(b) => b.begin_compose(stamp),
            UINode::Slider(b) => b.begin_compose(stamp),
            UINode::SegmentedControl(n) => n.base.begin_compose(stamp),
            UINode::InputBox(n) => n.base.begin_compose(stamp),
            UINode::ComboBox(n) => n.base.begin_compose(stamp),
            UINode::Sidebar(n) => n.base.begin_compose(stamp),
        }
    }

    /// Forces the node's visual cache to be considered dirty.
    #[verifier::rlimit(60)]
    pub fn force_compose_dirty(&mut self)
        ensures
            *final(self) == marked_dirty(*old(self)),
    {
        match self {
            UINode::Label(n) => n.base.force_compose_dirty(),
            UINode::Button(n) => n.base.force_compose_dirty(),
            UINode::Panel(b) => b.force_compose_dirty(),
            UINode::GlassPanel(b) => b.force_compose_dirty(),
            UINode::ProgressBar(b) => b.force_compose_dirty(),
            UINode::Slider(b) => b.force_compose_dirty(),
            UINode::SegmentedControl(n) => n.base.force_compose_dirty(),
            UINode::InputBox(n) => n.base.force_compose_dirty(),
            UINode::ComboBox(n) => n.base.force_compose_dirty(),
            UINode::Sidebar(n) => n.base.force_compose_dirty(),
        }
    }

    /// Returns whether a recompose was requested on the node, and clears the request.
    #[verifier::rlimit(60)]
    pub fn consume_recompose_request(&mut self) -> (r: bool)
        ensures
            r == base_of(*old(self)).recompose_requested,
            *final(self) == request_consumed(*old(self)),
    {
        match self {
            UINode::Label(n) => n.base.consume_recompose_request(),
            UINode::Button(n) => n.base.consume_recompose_request(),
            UINode::Panel(b) => b.consume_recompose_request(),
            UINode::GlassPanel(b) => b.consume_recompose_request(),
            UINode::ProgressBar(b) => b.consume_recompose_request(),
            UINode::Slider(b) => b.consume_recompose_request(),
            UINode::SegmentedControl(n) => n.base.consume_recompose_request(),
            UINode::InputBox(n) => n.base.consume_recompose_request(),
            UINode::ComboBox(n) => n.base.consume_recompose_request(),
            UINode::Sidebar(n) => n.base.consume_recompose_request(),
        }
    }

    /// Applies the context's clip: a clip rectangle applies when the node is inside
    /// a clip and clips to its parent.
    #[verifier::rlimit(60)]
    pub fn apply_clip(&mut self, inside_clip: bool)
        ensures
            *final(self) == clip_applied(*old(self), inside_clip),
    {
        match self {
            UINode::Label(n) => n.base.has_clip_rect = inside_clip && n.base.clip_to_parent,
            UINode::Button(n) => n.base.has_clip_rect = inside_clip && n.base.clip_to_parent,
            UINode::Panel(b) => b.has_clip_rect = inside_clip && b.clip_to_parent,
            UINode::GlassPanel(b) => b.has_clip_rect = inside_clip && b.clip_to_parent,
            UINode::ProgressBar(b) => b.has_clip_rect = inside_clip && b.clip_to_parent,
            UINode::Slider(b) => b.has_clip_rect = inside_clip && b.clip_to_parent,
            UINode::SegmentedControl(n) => n.base.has_clip_rect = inside_clip && n.base.clip_to_parent,
            UINode::InputBox(n) => n.base.has_clip_rect = inside_clip && n.base.clip_to_parent,
            UINode::ComboBox(n) => n.base.has_clip_rect = inside_clip && n.base.clip_to_parent,
            UINode::Sidebar(n) => n.base.has_clip_rect = inside_clip && n.base.clip_to_parent,
        }
    }

    /// Clears the cache dirty flag after a redraw.
    #[verifier::rlimit(60)]
    pub fn clear_cache_dirty(&mut self)
        ensures
            *final(self) == with_base(*old(self), NodeBase { cache_dirty: false, ..base_of(*old(self)) }),
    {
        match self {
            UINode::Label(n) => n.base.cache_dirty = false,
            UINode::Button(n) => n.base.cache_dirty = false,
            UINode::Panel(b) => b.cache_dirty = false,
            UINode::GlassPanel(b) => b.cache_dirty = false,
            UINode::ProgressBar(b) => b.cache_dirty = false,
            UINode::Slider(b) => b.cache_dirty = false,
            UINode::SegmentedControl(n) => n.base.cache_dirty = false,
            UINode::InputBox(n) => n.base.cache_dirty = false,
            UINode::ComboBox(n) => n.base.cache_dirty = false,
            UINode::Sidebar(n) => n.base.cache_dirty = false,
        }
    }

    /// Is the visual cache dirty?
    pub fn cache_dirty(&self) -> (r: bool)
        ensures
            r == base_of(*self).cache_dirty,
    {
        self.base().cache_dirty
    }
}


/// Equal surroundings around two middles: the middles are equal.
proof fn lemma_cancel_middle(a: Seq<u8>, x1: Seq<u8>, x2: Seq<u8>, r: Seq<u8>)
    requires
        a + x1 + r == a + x2 + r,
    ensures
        x1 == x2,
{
    let s1 = a + x1 + r;
    let s2 = a + x2 + r;
    assert(s1.len() == a.len() + x1.len() + r.len());
    assert(s2.len() == a.len() + x2.len() + r.len());
    assert(x1 =~= s1.subrange(a.len() as int, a.len() + x1.len() as int));
    assert(x2 =~= s2.subrange(a.len() as int, a.len() + x2.len() as int));
}

/// The piece of `a + x + r` after `a` is `x`.
proof fn lemma_piece(a: Seq<u8>, x: Seq<u8>, r: Seq<u8>)
    ensures
        (a + x + r).subrange(a.len() as int, a.len() + x.len() as int) == x,
{
    assert((a + x + r).subrange(a.len() as int, a.len() + x.len() as int) =~= x);
}

/// Different texts encode to different UTF-8 bytes.
pub proof fn lemma_utf8_injective(t1: Seq<char>, t2: Seq<char>)
    requires
        t1 != t2,
    ensures
        vstd::utf8::encode_utf8(t1) != vstd::utf8::encode_utf8(t2),
{
    vstd::utf8::encode_utf8_decode_utf8(t1);
    vstd::utf8::encode_utf8_decode_utf8(t2);
}

/// Different numbers have different little-endian bytes.
pub proof fn lemma_le_bytes_injective(x: u32, y: u32)
    requires
        x != y,
    ensures
        le_bytes_u32(x) != le_bytes_u32(y),
{
    if le_bytes_u32(x) == le_bytes_u32(y) {
        assert(le_bytes_u32(x)[0] == le_bytes_u32(y)[0]);
        assert(le_bytes_u32(x)[1] == le_bytes_u32(y)[1]);
        assert(le_bytes_u32(x)[2] == le_bytes_u32(y)[2]);
        assert(le_bytes_u32(x)[3] == le_bytes_u32(y)[3]);
        assert(x == y) by (bit_vector)
            requires
                x % 256 == y % 256,
                x / 0x100 % 256 == y / 0x100 % 256,
                x / 0x1_0000 % 256 == y / 0x1_0000 % 256,
                x / 0x100_0000 % 256 == y / 0x100_0000 % 256,
        ;
    }
}

/// A tag followed by different values gives different bytes.
proof fn lemma_tagged_injective(tag: Seq<char>, v1: Seq<u8>, v2: Seq<u8>)
    requires
        v1 != v2,
    ensures
        tagged(tag, v1) != tagged(tag, v2),
{
    let e = vstd::utf8::encode_utf8(tag);
    assert(tagged(tag, v1) =~= e + v1 + Seq::<u8>::empty());
    assert(tagged(tag, v2) =~= e + v2 + Seq::<u8>::empty());
    if tagged(tag, v1) == tagged(tag, v2) {
        lemma_cancel_middle(e, v1, v2, Seq::<u8>::empty());
    }
}

/// Different colors give different tagged channel bytes.
#[verifier::spinoff_prover]
#[verifier::rlimit(40)]
proof fn lemma_color_bytes_injective(tags: Seq<Seq<char>>, c1: Color, c2: Color)
    requires
        c1 != c2,
    ensures
        color_bytes(tags, c1) != color_bytes(tags, c2),
{
    if color_bytes(tags, c1) == color_bytes(tags, c2) {
        let e0 = vstd::utf8::encode_utf8(tags[0]);
        let e1 = vstd::utf8::encode_utf8(tags[1]);
        let e2 = vstd::utf8::encode_utf8(tags[2]);
        let e3 = vstd::utf8::encode_utf8(tags[3]);
        let s = color_bytes(tags, c1);
        assert(s =~= e0 + le_bytes_u32(c1.r) + (e1 + le_bytes_u32(c1.g) + e2 + le_bytes_u32(c1.b) + e3 + le_bytes_u32(c1.a)));
        assert(s =~= e0 + le_bytes_u32(c2.r) + (e1 + le_bytes_u32(c2.g) + e2 + le_bytes_u32(c2.b) + e3 + le_bytes_u32(c2.a)));
        lemma_piece(e0, le_bytes_u32(c1.r), e1 + le_bytes_u32(c1.g) + e2 + le_bytes_u32(c1.b) + e3 + le_bytes_u32(c1.a));
        lemma_piece(e0, le_bytes_u32(c2.r), e1 + le_bytes_u32(c2.g) + e2 + le_bytes_u32(c2.b) + e3 + le_bytes_u32(c2.a));
        let a1 = e0 + le_bytes_u32(c1.r) + e1;
        let a2 = e0 + le_bytes_u32(c2.r) + e1;
        assert(s =~= a1 + le_bytes_u32(c1.g) + (e2 + le_bytes_u32(c1.b) + e3 + le_bytes_u32(c1.a)));
        assert(s =~= a2 + le_bytes_u32(c2.g) + (e2 + le_bytes_u32(c2.b) + e3 + le_bytes_u32(c2.a)));
        lemma_piece(a1, le_bytes_u32(c1.g), e2 + le_bytes_u32(c1.b) + e3 + le_bytes_u32(c1.a));
        lemma_piece(a2, le_bytes_u32(c2.g), e2 + le_bytes_u32(c2.b) + e3 + le_bytes_u32(c2.a));
        let b1 = a1 + le_bytes_u32(c1.g) + e2;
        let b2 = a2 + le_bytes_u32(c2.g) + e2;
        assert(s =~= b1 + le_bytes_u32(c1.b) + (e3 + le_bytes_u32(c1.a)));
        assert(s =~= b2 + le_bytes_u32(c2.b) + (e3 + le_bytes_u32(c2.a)));
        lemma_piece(b1, le_bytes_u32(c1.b), e3 + le_bytes_u32(c1.a));
        lemma_piece(b2, le_bytes_u32(c2.b), e3 + le_bytes_u32(c2.a));
        let d1 = b1 + le_bytes_u32(c1.b) + e3;
        let d2 = b2 + le_bytes_u32(c2.b) + e3;
        assert(s =~= d1 + le_bytes_u32(c1.a) + Seq::<u8>::empty());
        assert(s =~= d2 + le_bytes_u32(c2.a) + Seq::<u8>::empty());
        lemma_piece(d1, le_bytes_u32(c1.a), Seq::<u8>::empty());
        lemma_piece(d2, le_bytes_u32(c2.a), Seq::<u8>::empty());
        if c1.r != c2.r {
            lemma_le_bytes_injective(c1.r, c2.r);
        } else if c1.g != c2.g {
            lemma_le_bytes_injective(c1.g, c2.g);
        } else if c1.b != c2.b {
            lemma_le_bytes_injective(c1.b, c2.b);
        } else {
            lemma_le_bytes_injective(c1.a, c2.a);
        }
    }
}



/// The channel bytes of a button's text color override (none without one).
spec fn override_bytes(o: Option<Color>) -> Seq<u8> {
    match o {
        Some(c) => color_bytes(seq!["text_color_r"@, "text_color_g"@, "text_color_b"@, "text_color_a"@], c),
        None => Seq::<u8>::empty(),
    }
}

/// A button's compose bytes see its text: two buttons alike in everything else but
/// different there mix different bytes into their compose hash, so a rebuild that
/// changes only that leaves the visual cache dirty (barring a hash collision).
#[verifier::spinoff_prover]
#[verifier::rlimit(40)]
pub proof fn lemma_button_bytes_track_text<Cb>(b1: ButtonNode<Cb>, b2: ButtonNode<Cb>)
    requires
        b2 == (ButtonNode { text: b2.text, ..b1 }),
        b1.text@ != b2.text@,
    ensures
        node_compose_bytes(UINode::Button(b1)) != node_compose_bytes(UINode::Button(b2)),
{
    let a = Seq::<u8>::empty();
    let r = tagged("icon"@, vstd::utf8::encode_utf8(b1.icon@))
        + tagged("font_size"@, le_bytes_u32(b1.font_size))
        + tagged("style"@, le_bytes_u32(style_code(b1.style)))
        + tagged("icon_placement"@, le_bytes_u32(placement_code(b1.icon_placement)))
        + tagged("text_color_override"@, if b1.text_color_override is Some { seq![1u8] } else { seq![0u8] })
        + override_bytes(b1.text_color_override)
        + tagged("hover_scale_idle"@, le_bytes_u32(b1.hover_scale_idle))
        + tagged("hover_scale_hover"@, le_bytes_u32(b1.hover_scale_hover));
    let x1 = tagged("text"@, vstd::utf8::encode_utf8(b1.text@));
    let x2 = tagged("text"@, vstd::utf8::encode_utf8(b2.text@));
    assert(node_compose_bytes(UINode::Button(b1)) =~= a + x1 + r);
    assert(node_compose_bytes(UINode::Button(b2)) =~= a + x2 + r);
    assert(x1 != x2) by {
        lemma_utf8_injective(b1.text@, b2.text@);
        lemma_tagged_injective("text"@, vstd::utf8::encode_utf8(b1.text@), vstd::utf8::encode_utf8(b2.text@));
    }
    if node_compose_bytes(UINode::Button(b1)) == node_compose_bytes(UINode::Button(b2)) {
        lemma_cancel_middle(a, x1, x2, r);
    }
}

/// A button's compose bytes see its icon: two buttons alike in everything else but
/// different there mix different bytes into their compose hash, so a rebuild that
/// changes only that leaves the visual cache dirty (barring a hash collision).
#[verifier::spinoff_prover]
#[verifier::rlimit(40)]
pub proof fn lemma_button_bytes_track_icon<Cb>(b1: ButtonNode<Cb>, b2: ButtonNode<Cb>)
    requires
        b2 == (ButtonNode { icon: b2.icon, ..b1 }),
        b1.icon@ != b2.icon@,
    ensures
        node_compose_bytes(UINode::Button(b1)) != node_compose_bytes(UINode::Button(b2)),
{
    let a = tagged("text"@, vstd::utf8::encode_utf8(b1.text@));
    let r = tagged("font_size"@, le_bytes_u32(b1.font_size))
        + tagged("style"@, le_bytes_u32(style_code(b1.style)))
        + tagged("icon_placement"@, le_bytes_u32(placement_code(b1.icon_placement)))
        + tagged("text_color_override"@, if b1.text_color_override is Some { seq![1u8] } else { seq![0u8] })
        + override_bytes(b1.text_color_override)
        + tagged("hover_scale_idle"@, le_bytes_u32(b1.hover_scale_idle))
        + tagged("hover_scale_hover"@, le_bytes_u32(b1.hover_scale_hover));
    let x1 = tagged("icon"@, vstd::utf8::encode_utf8(b1.icon@));
    let x2 = tagged("icon"@, vstd::utf8::encode_utf8(b2.icon@));
    assert(node_compose_bytes(UINode::Button(b1)) =~= a + x1 + r);
    assert(node_compose_bytes(UINode::Button(b2)) =~= a + x2 + r);
    assert(x1 != x2) by {
        lemma_utf8_injective(b1.icon@, b2.icon@);
        lemma_tagged_injective("icon"@, vstd::utf8::encode_utf8(b1.icon@), vstd::utf8::encode_utf8(b2.icon@));
    }
    if node_compose_bytes(UINode::Button(b1)) == node_compose_bytes(UINode::Button(b2)) {
        lemma_cancel_middle(a, x1, x2, r);
    }
}

/// A button's compose bytes see its font size: two buttons alike in everything else but
/// different there mix different bytes into their compose hash, so a rebuild that
/// changes only that leaves the visual cache dirty (barring a hash collision).
#[verifier::spinoff_prover]
#[verifier::rlimit(40)]
pub proof fn lemma_button_bytes_track_font_size<Cb>(b1: ButtonNode<Cb>, b2: ButtonNode<Cb>)
    requires
        b2 == (ButtonNode { font_size: b2.font_size, ..b1 }),
        b1.font_size != b2.font_size,
    ensures
        node_compose_bytes(UINode::Button(b1)) != node_compose_bytes(UINode::Button(b2)),
{
    let a = tagged("text"@, vstd::utf8::encode_utf8(b1.text@))
        + tagged("icon"@, vstd::utf8::encode_utf8(b1.icon@));
    let r = tagged("style"@, le_bytes_u32(style_code(b1.style)))
        + tagged("icon_placement"@, le_bytes_u32(placement_code(b1.icon_placement)))
        + tagged("text_color_override"@, if b1.text_color_override is Some { seq![1u8] } else { seq![0u8] })
        + override_bytes(b1.text_color_override)
        + tagged("hover_scale_idle"@, le_bytes_u32(b1.hover_scale_idle))
        + tagged("hover_scale_hover"@, le_bytes_u32(b1.hover_scale_hover));
    let x1 = tagged("font_size"@, le_bytes_u32(b1.font_size));
    let x2 = tagged("font_size"@, le_bytes_u32(b2.font_size));
    assert(node_compose_bytes(UINode::Button(b1)) =~= a + x1 + r);
    assert(node_compose_bytes(UINode::Button(b2)) =~= a + x2 + r);
    assert(x1 != x2) by {
        lemma_le_bytes_injective(b1.font_size, b2.font_size);
        lemma_tagged_injective("font_size"@, le_bytes_u32(b1.font_size), le_bytes_u32(b2.font_size));
    }
    if node_compose_bytes(UINode::Button(b1)) == node_compose_bytes(UINode::Button(b2)) {
        lemma_cancel_middle(a, x1, x2, r);
    }
}

/// A button's compose bytes see its style: two buttons alike in everything else but
/// different there mix different bytes into their compose hash, so a rebuild that
/// changes only that leaves the visual cache dirty (barring a hash collision).
#[verifier::spinoff_prover]
#[verifier::rlimit(40)]
pub proof fn lemma_button_bytes_track_style<Cb>(b1: ButtonNode<Cb>, b2: ButtonNode<Cb>)
    requires
        b2 == (ButtonNode { style: b2.style, ..b1 }),
        b1.style != b2.style,
    ensures
        node_compose_bytes(UINode::Button(b1)) != node_compose_bytes(UINode::Button(b2)),
{
    let a = tagged("text"@, vstd::utf8::encode_utf8(b1.text@))
        + tagged("icon"@, vstd::utf8::encode_utf8(b1.icon@))
        + tagged("font_size"@, le_bytes_u32(b1.font_size));
    let r = tagged("icon_placement"@, le_bytes_u32(placement_code(b1.icon_placement)))
        + tagged("text_color_override"@, if b1.text_color_override is Some { seq![1u8] } else { seq![0u8] })
        + override_bytes(b1.text_color_override)
        + tagged("hover_scale_idle"@, le_bytes_u32(b1.hover_scale_idle))
        + tagged("hover_scale_hover"@, le_bytes_u32(b1.hover_scale_hover));
    let x1 = tagged("style"@, le_bytes_u32(style_code(b1.style)));
    let x2 = tagged("style"@, le_bytes_u32(style_code(b2.style)));
    assert(node_compose_bytes(UINode::Button(b1)) =~= a + x1 + r);
    assert(node_compose_bytes(UINode::Button(b2)) =~= a + x2 + r);
    assert(x1 != x2) by {
        lemma_le_bytes_injective(style_code(b1.style), style_code(b2.style));
        lemma_tagged_injective("style"@, le_bytes_u32(style_code(b1.style)), le_bytes_u32(style_code(b2.style)));
    }
    if node_compose_bytes(UINode::Button(b1)) == node_compose_bytes(UINode::Button(b2)) {
        lemma_cancel_middle(a, x1, x2, r);
    }
}

/// A button's compose bytes see its icon placement: two buttons alike in everything else but
/// different there mix different bytes into their compose hash, so a rebuild that
/// changes only that leaves the visual cache dirty (barring a hash collision).
#[verifier::spinoff_prover]
#[verifier::rlimit(40)]
pub proof fn lemma_button_bytes_track_icon_placement<Cb>(b1: ButtonNode<Cb>, b2: ButtonNode<Cb>)
    requires
        b2 == (ButtonNode { icon_placement: b2.icon_placement, ..b1 }),
        b1.icon_placement != b2.icon_placement,
    ensures
        node_compose_bytes(UINode::Button(b1)) != node_compose_bytes(UINode::Button(b2)),
{
    let a = tagged("text"@, vstd::utf8::encode_utf8(b1.text@))
        + tagged("icon"@, vstd::utf8::encode_utf8(b1.icon@))
        + tagged("font_size"@, le_bytes_u32(b1.font_size))
        + tagged("style"@, le_bytes_u32(style_code(b1.style)));
    let r = tagged("text_color_override"@, if b1.text_color_override is Some { seq![1u8] } else { seq![0u8] })
        + override_bytes(b1.text_color_override)
        + tagged("hover_scale_idle"@, le_bytes_u32(b1.hover_scale_idle))
        + tagged("hover_scale_hover"@, le_bytes_u32(b1.hover_scale_hover));
    let x1 = tagged("icon_placement"@, le_bytes_u32(placement_code(b1.icon_placement)));
    let x2 = tagged("icon_placement"@, le_bytes_u32(placement_code(b2.icon_placement)));
    assert(node_compose_bytes(UINode::Button(b1)) =~= a + x1 + r);
    assert(node_compose_bytes(UINode::Button(b2)) =~= a + x2 + r);
    assert(x1 != x2) by {
        lemma_le_bytes_injective(placement_code(b1.icon_placement), placement_code(b2.icon_placement));
        lemma_tagged_injective(
            "icon_placement"@,
            le_bytes_u32(placement_code(b1.icon_placement)),
            le_bytes_u32(placement_code(b2.icon_placement)),
        );
    }
    if node_compose_bytes(UINode::Button(b1)) == node_compose_bytes(UINode::Button(b2)) {
        lemma_cancel_middle(a, x1, x2, r);
    }
}

/// A button's compose bytes see its idle scale: two buttons alike in everything else but
/// different there mix different bytes into their compose hash, so a rebuild that
/// changes only that leaves the visual cache dirty (barring a hash collision).
#[verifier::spinoff_prover]
#[verifier::rlimit(40)]
pub proof fn lemma_button_bytes_track_hover_scale_idle<Cb>(b1: ButtonNode<Cb>, b2: ButtonNode<Cb>)
    requires
        b2 == (ButtonNode { hover_scale_idle: b2.hover_scale_idle, ..b1 }),
        b1.hover_scale_idle != b2.hover_scale_idle,
    ensures
        node_compose_bytes(UINode::Button(b1)) != node_compose_bytes(UINode::Button(b2)),
{
    let a = tagged("text"@, vstd::utf8::encode_utf8(b1.text@))
        + tagged("icon"@, vstd::utf8::encode_utf8(b1.icon@))
        + tagged("font_size"@, le_bytes_u32(b1.font_size))
        + tagged("style"@, le_bytes_u32(style_code(b1.style)))
        + tagged("icon_placement"@, le_bytes_u32(placement_code(b1.icon_placement)))
        + tagged("text_color_override"@, if b1.text_color_override is Some { seq![1u8] } else { seq![0u8] })
        + override_bytes(b1.text_color_override);
    let r = tagged("hover_scale_hover"@, le_bytes_u32(b1.hover_scale_hover));
    let x1 = tagged("hover_scale_idle"@, le_bytes_u32(b1.hover_scale_idle));
    let x2 = tagged("hover_scale_idle"@, le_bytes_u32(b2.hover_scale_idle));
    assert(node_compose_bytes(UINode::Button(b1)) =~= a + x1 + r);
    assert(node_compose_bytes(UINode::Button(b2)) =~= a + x2 + r);
    assert(x1 != x2) by {
        lemma_le_bytes_injective(b1.hover_scale_idle, b2.hover_scale_idle);
        lemma_tagged_injective("hover_scale_idle"@, le_bytes_u32(b1.hover_scale_idle), le_bytes_u32(b2.hover_scale_idle));
    }
    if node_compose_bytes(UINode::Button(b1)) == node_compose_bytes(UINode::Button(b2)) {
        lemma_cancel_middle(a, x1, x2, r);
    }
}

/// A button's compose bytes see its hovered scale: two buttons alike in everything else but
/// different there mix different bytes into their compose hash, so a rebuild that
/// changes only that leaves the visual cache dirty (barring a hash collision).
#[verifier::spinoff_prover]
#[verifier::rlimit(40)]
pub proof fn lemma_button_bytes_track_hover_scale_hover<Cb>(b1: ButtonNode<Cb>, b2: ButtonNode<Cb>)
    requires
        b2 == (ButtonNode { hover_scale_hover: b2.hover_scale_hover, ..b1 }),
        b1.hover_scale_hover != b2.hover_scale_hover,
    ensures
        node_compose_bytes(UINode::Button(b1)) != node_compose_bytes(UINode::Button(b2)),
{
    let a = tagged("text"@, vstd::utf8::encode_utf8(b1.text@))
        + tagged("icon"@, vstd::utf8::encode_utf8(b1.icon@))
        + tagged("font_size"@, le_bytes_u32(b1.font_size))
        + tagged("style"@, le_bytes_u32(style_code(b1.style)))
        + tagged("icon_placement"@, le_bytes_u32(placement_code(b1.icon_placement)))
        + tagged("text_color_override"@, if b1.text_color_override is Some { seq![1u8] } else { seq![0u8] })
        + override_bytes(b1.text_color_override)
        + tagged("hover_scale_idle"@, le_bytes_u32(b1.hover_scale_idle));
    let r = Seq::<u8>::empty();
    let x1 = tagged("hover_scale_hover"@, le_bytes_u32(b1.hover_scale_hover));
    let x2 = tagged("hover_scale_hover"@, le_bytes_u32(b2.hover_scale_hover));
    assert(node_compose_bytes(UINode::Button(b1)) =~= a + x1 + r);
    assert(node_compose_bytes(UINode::Button(b2)) =~= a + x2 + r);
    assert(x1 != x2) by {
        lemma_le_bytes_injective(b1.hover_scale_hover, b2.hover_scale_hover);
        lemma_tagged_injective("hover_scale_hover"@, le_bytes_u32(b1.hover_scale_hover), le_bytes_u32(b2.hover_scale_hover));
    }
    if node_compose_bytes(UINode::Button(b1)) == node_compose_bytes(UINode::Button(b2)) {
        lemma_cancel_middle(a, x1, x2, r);
    }
}

/// A button's compose bytes see its text color override (whether there is one, and its color): two buttons alike in everything else but
/// different there mix different bytes into their compose hash, so a rebuild that
/// changes only that leaves the visual cache dirty (barring a hash collision).
#[verifier::spinoff_prover]
#[verifier::rlimit(40)]
pub proof fn lemma_button_bytes_track_text_color<Cb>(b1: ButtonNode<Cb>, b2: ButtonNode<Cb>)
    requires
        b2 == (ButtonNode { text_color_override: b2.text_color_override, ..b1 }),
        b1.text_color_override != b2.text_color_override,
    ensures
        node_compose_bytes(UINode::Button(b1)) != node_compose_bytes(UINode::Button(b2)),
{
    let a = tagged("text"@, vstd::utf8::encode_utf8(b1.text@))
        + tagged("icon"@, vstd::utf8::encode_utf8(b1.icon@))
        + tagged("font_size"@, le_bytes_u32(b1.font_size))
        + tagged("style"@, le_bytes_u32(style_code(b1.style)))
        + tagged("icon_placement"@, le_bytes_u32(placement_code(b1.icon_placement)));
    let r = tagged("hover_scale_idle"@, le_bytes_u32(b1.hover_scale_idle))
        + tagged("hover_scale_hover"@, le_bytes_u32(b1.hover_scale_hover));
    let x1 = tagged("text_color_override"@, if b1.text_color_override is Some { seq![1u8] } else { seq![0u8] })
        + override_bytes(b1.text_color_override);
    let x2 = tagged("text_color_override"@, if b2.text_color_override is Some { seq![1u8] } else { seq![0u8] })
        + override_bytes(b2.text_color_override);
    assert(node_compose_bytes(UINode::Button(b1)) =~= a + x1 + r);
    assert(node_compose_bytes(UINode::Button(b2)) =~= a + x2 + r);
    assert(x1 != x2) by {
        let e = vstd::utf8::encode_utf8("text_color_override"@);
        let f1: Seq<u8> = if b1.text_color_override is Some { seq![1u8] } else { seq![0u8] };
        let f2: Seq<u8> = if b2.text_color_override is Some { seq![1u8] } else { seq![0u8] };
        let q1 = override_bytes(b1.text_color_override);
        let q2 = override_bytes(b2.text_color_override);
        assert(x1 =~= e + f1 + q1);
        assert(x2 =~= e + f2 + q2);
        if x1 == x2 {
            lemma_piece(e, f1, q1);
            lemma_piece(e, f2, q2);
            assert(f1 == f2);
            if let Some(c1) = b1.text_color_override {
                let c2 = b2.text_color_override->Some_0;
                lemma_color_bytes_injective(seq!["text_color_r"@, "text_color_g"@, "text_color_b"@, "text_color_a"@], c1, c2);
                lemma_cancel_middle(e + f1, q1, q2, Seq::<u8>::empty());
            }
        }
    }
    if node_compose_bytes(UINode::Button(b1)) == node_compose_bytes(UINode::Button(b2)) {
        lemma_cancel_middle(a, x1, x2, r);
    }
}


/// The channel bytes of a label's own color (none when it uses the theme color).
spec fn own_color_bytes(use_theme_color: bool, c: Color) -> Seq<u8> {
    if use_theme_color {
        Seq::<u8>::empty()
    } else {
        color_bytes(seq!["color_r"@, "color_g"@, "color_b"@, "color_a"@], c)
    }
}

/// A label's compose bytes see its text: two labels alike in everything else but
/// different there mix different bytes into their compose hash, so a rebuild that
/// changes only that leaves the visual cache dirty (barring a hash collision).
#[verifier::spinoff_prover]
#[verifier::rlimit(40)]
pub proof fn lemma_label_bytes_track_text(l1: LabelNode, l2: LabelNode)
    requires
        l2 == (LabelNode { text: l2.text, ..l1 }),
        l1.text@ != l2.text@,
    ensures
        node_compose_bytes::<()>(UINode::Label(l1)) != node_compose_bytes::<()>(UINode::Label(l2)),
{
    let a = Seq::<u8>::empty();
    let r = tagged("font_size"@, le_bytes_u32(l1.font_size))
        + tagged("use_theme_color"@, if l1.use_theme_color { seq![1u8] } else { seq![0u8] })
        + own_color_bytes(l1.use_theme_color, l1.color);
    let x1 = tagged("text"@, vstd::utf8::encode_utf8(l1.text@));
    let x2 = tagged("text"@, vstd::utf8::encode_utf8(l2.text@));
    assert(node_compose_bytes::<()>(UINode::Label(l1)) =~= a + x1 + r);
    assert(node_compose_bytes::<()>(UINode::Label(l2)) =~= a + x2 + r);
    assert(x1 != x2) by {
        lemma_utf8_injective(l1.text@, l2.text@);
        lemma_tagged_injective("text"@, vstd::utf8::encode_utf8(l1.text@), vstd::utf8::encode_utf8(l2.text@));
    }
    if node_compose_bytes::<()>(UINode::Label(l1)) == node_compose_bytes::<()>(UINode::Label(l2)) {
        lemma_cancel_middle(a, x1, x2, r);
    }
}

/// A label's compose bytes see its font size: two labels alike in everything else but
/// different there mix different bytes into their compose hash, so a rebuild that
/// changes only that leaves the visual cache dirty (barring a hash collision).
#[verifier::spinoff_prover]
#[verifier::rlimit(40)]
pub proof fn lemma_label_bytes_track_font_size(l1: LabelNode, l2: LabelNode)
    requires
        l2 == (LabelNode { font_size: l2.font_size, ..l1 }),
        l1.font_size != l2.font_size,
    ensures
        node_compose_bytes::<()>(UINode::Label(l1)) != node_compose_bytes::<()>(UINode::Label(l2)),
{
    let a = tagged("text"@, vstd::utf8::encode_utf8(l1.text@));
    let r = tagged("use_theme_color"@, if l1.use_theme_color { seq![1u8] } else { seq![0u8] })
        + own_color_bytes(l1.use_theme_color, l1.color);
    let x1 = tagged("font_size"@, le_bytes_u32(l1.font_size));
    let x2 = tagged("font_size"@, le_bytes_u32(l2.font_size));
    assert(node_compose_bytes::<()>(UINode::Label(l1)) =~= a + x1 + r);
    assert(node_compose_bytes::<()>(UINode::Label(l2)) =~= a + x2 + r);
    assert(x1 != x2) by {
        lemma_le_bytes_injective(l1.font_size, l2.font_size);
        lemma_tagged_injective("font_size"@, le_bytes_u32(l1.font_size), le_bytes_u32(l2.font_size));
    }
    if node_compose_bytes::<()>(UINode::Label(l1)) == node_compose_bytes::<()>(UINode::Label(l2)) {
        lemma_cancel_middle(a, x1, x2, r);
    }
}

/// A label's compose bytes see its own color when it does not use the theme color: two labels alike in everything else but
/// different there mix different bytes into their compose hash, so a rebuild that
/// changes only that leaves the visual cache dirty (barring a hash collision).
#[verifier::spinoff_prover]
#[verifier::rlimit(40)]
pub proof fn lemma_label_bytes_track_own_color(l1: LabelNode, l2: LabelNode)
    requires
        l2 == (LabelNode { color: l2.color, ..l1 }),
        !l1.use_theme_color,
        l1.color != l2.color,
    ensures
        node_compose_bytes::<()>(UINode::Label(l1)) != node_compose_bytes::<()>(UINode::Label(l2)),
{
    let a = tagged("text"@, vstd::utf8::encode_utf8(l1.text@))
        + tagged("font_size"@, le_bytes_u32(l1.font_size))
        + tagged("use_theme_color"@, if l1.use_theme_color { seq![1u8] } else { seq![0u8] });
    let r = Seq::<u8>::empty();
    let x1 = own_color_bytes(l1.use_theme_color, l1.color);
    let x2 = own_color_bytes(l2.use_theme_color, l2.color);
    assert(node_compose_bytes::<()>(UINode::Label(l1)) =~= a + x1 + r);
    assert(node_compose_bytes::<()>(UINode::Label(l2)) =~= a + x2 + r);
    assert(x1 != x2) by {
        lemma_color_bytes_injective(seq!["color_r"@, "color_g"@, "color_b"@, "color_a"@], l1.color, l2.color);
    }
    if node_compose_bytes::<()>(UINode::Label(l1)) == node_compose_bytes::<()>(UINode::Label(l2)) {
        lemma_cancel_middle(a, x1, x2, r);
    }
}

/// A label's compose bytes see whether it uses the theme color: two labels alike in everything else but
/// different there mix different bytes into their compose hash, so a rebuild that
/// changes only that leaves the visual cache dirty (barring a hash collision).
#[verifier::spinoff_prover]
#[verifier::rlimit(40)]
pub proof fn lemma_label_bytes_track_theme_flag(l1: LabelNode, l2: LabelNode)
    requires
        l2 == (LabelNode { use_theme_color: l2.use_theme_color, ..l1 }),
        l1.use_theme_color != l2.use_theme_color,
    ensures
        node_compose_bytes::<()>(UINode::Label(l1)) != node_compose_bytes::<()>(UINode::Label(l2)),
{
    let a = tagged("text"@, vstd::utf8::encode_utf8(l1.text@))
        + tagged("font_size"@, le_bytes_u32(l1.font_size));
    let r = Seq::<u8>::empty();
    let x1 = tagged("use_theme_color"@, if l1.use_theme_color { seq![1u8] } else { seq![0u8] })
        + own_color_bytes(l1.use_theme_color, l1.color);
    let x2 = tagged("use_theme_color"@, if l2.use_theme_color { seq![1u8] } else { seq![0u8] })
        + own_color_bytes(l2.use_theme_color, l2.color);
    assert(node_compose_bytes::<()>(UINode::Label(l1)) =~= a + x1 + r);
    assert(node_compose_bytes::<()>(UINode::Label(l2)) =~= a + x2 + r);
    assert(x1 != x2) by {
        let e = vstd::utf8::encode_utf8("use_theme_color"@);
        let f1: Seq<u8> = if l1.use_theme_color { seq![1u8] } else { seq![0u8] };
        let f2: Seq<u8> = if l2.use_theme_color { seq![1u8] } else { seq![0u8] };
        let c1 = own_color_bytes(l1.use_theme_color, l1.color);
        let c2 = own_color_bytes(l2.use_theme_color, l2.color);
        assert(x1 =~= e + f1 + c1);
        assert(x2 =~= e + f2 + c2);
        if x1 == x2 {
            lemma_piece(e, f1, c1);
            lemma_piece(e, f2, c2);
            assert(f1 == f2);
        }
    }
    if node_compose_bytes::<()>(UINode::Label(l1)) == node_compose_bytes::<()>(UINode::Label(l2)) {
        lemma_cancel_middle(a, x1, x2, r);
    }
}

} // verus!

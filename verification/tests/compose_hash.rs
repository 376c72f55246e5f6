use eui_neo_rust::color::Color;
use eui_neo_rust::components::button::ButtonStyle;
use eui_neo_rust::ui::node::{make_node, NodeBase, NodeKind, UINode, COMPOSE_HASH_SEED};

#[test]
fn fresh_node_state() {
    let n = NodeBase::new("k".to_string());
    assert_eq!(n.compose_stamp, 0);
    assert_eq!(n.compose_build_hash, COMPOSE_HASH_SEED);
    assert_eq!(n.composed_hash, 0);
    assert!(!n.has_compose_snapshot);
    assert!(n.cache_dirty);
    assert!(!n.recompose_requested);
    assert_eq!(n.z_index, 0);
}

#[test]
fn tracking_bytes_is_fnv1a() {
    let mut n = NodeBase::new("k".to_string());
    n.track_compose_bytes(b"a");
    assert_eq!(n.compose_build_hash, 4953267810257967366);
    let mut m = NodeBase::new("k".to_string());
    m.track_compose_bytes(b"ab");
    assert_eq!(m.compose_build_hash, 11217423238573040876);
}

#[test]
fn tracking_twice_equals_tracking_concatenation() {
    let mut n = NodeBase::new("k".to_string());
    n.track_compose_bytes(b"a");
    n.track_compose_bytes(b"b");
    let mut m = NodeBase::new("k".to_string());
    m.track_compose_bytes(b"ab");
    assert_eq!(n.compose_build_hash, m.compose_build_hash);
}

#[test]
fn tracking_values_uses_tag_then_bytes() {
    let mut n = NodeBase::new("k".to_string());
    n.track_compose_value("n", &7u32);
    assert_eq!(n.compose_build_hash, 6121677370010336944);

    let mut b = NodeBase::new("k".to_string());
    b.track_compose_value("flag", &true);
    assert_eq!(b.compose_build_hash, 9709493354045380644);

    let mut z = NodeBase::new("k".to_string());
    z.track_compose_value("z", &-1i32);
    assert_eq!(z.compose_build_hash, 4084945074391362215);

    let mut w = NodeBase::new("k".to_string());
    w.track_compose_value("w", &0x0102030405060708u64);
    assert_eq!(w.compose_build_hash, 13678453784246739844);

    let mut s = NodeBase::new("k".to_string());
    s.track_compose_value("text", "héllo");
    assert_eq!(s.compose_build_hash, 5914494949838627305);

    let mut st = NodeBase::new("k".to_string());
    st.track_compose_value("text", &"héllo".to_string());
    assert_eq!(st.compose_build_hash, 5914494949838627305);

    let mut marker = NodeBase::new("k".to_string());
    marker.track_compose_marker("a");
    assert_eq!(marker.compose_build_hash, 4953267810257967366);
}

#[test]
fn begin_compose_resets_hash_and_request() {
    let mut n = NodeBase::new("k".to_string());
    n.track_compose_bytes(b"xyz");
    n.request_compose_rebuild();
    n.begin_compose(3);
    assert_eq!(n.compose_stamp, 3);
    assert_eq!(n.compose_build_hash, COMPOSE_HASH_SEED);
    assert!(!n.recompose_requested);
    assert!(n.composed_in(3));
    assert!(!n.composed_in(2));
}

#[test]
fn finish_compose_marks_dirty_only_on_change() {
    let mut n = NodeBase::new("k".to_string());
    n.begin_compose(1);
    n.track_compose_bytes(b"a");
    n.finish_compose(false);
    assert!(n.cache_dirty);
    assert!(n.has_compose_snapshot);
    assert_eq!(n.composed_hash, 4953267810257967366);

    // Same content next pass: the cache flag stays as it was.
    n.cache_dirty = false;
    n.begin_compose(2);
    n.track_compose_bytes(b"a");
    n.finish_compose(false);
    assert!(!n.cache_dirty);

    // Changed content: dirty.
    n.begin_compose(3);
    n.track_compose_bytes(b"b");
    n.finish_compose(false);
    assert!(n.cache_dirty);

    // Same content but the primitive changed: dirty.
    n.cache_dirty = false;
    n.begin_compose(4);
    n.track_compose_bytes(b"b");
    n.finish_compose(true);
    assert!(n.cache_dirty);
}

#[test]
fn recompose_request_is_consumed_once() {
    let mut n = NodeBase::new("k".to_string());
    n.cache_dirty = false;
    n.request_compose_rebuild();
    assert!(n.cache_dirty);
    assert!(n.consume_recompose_request());
    assert!(!n.consume_recompose_request());
    n.cache_dirty = false;
    n.request_visual_repaint();
    assert!(n.cache_dirty);
    n.cache_dirty = false;
    n.force_compose_dirty();
    assert!(n.cache_dirty);
}

#[test]
fn label_finish_hashes_its_configuration() {
    let mut node: UINode<()> = make_node(NodeKind::Label, "l".to_string());
    node.begin_compose(1);
    node.finish_compose(false);
    assert_eq!(node.base().composed_hash, 1657078297167295764);

    let mut colored: UINode<()> = make_node(NodeKind::Label, "l".to_string());
    if let UINode::Label(l) = &mut colored {
        l.text = "Hi".to_string();
        l.use_theme_color = false;
        l.color = Color::new(0.2f32.to_bits(), 0.4f32.to_bits(), 0.6f32.to_bits(), 0.8f32.to_bits());
    }
    colored.begin_compose(1);
    colored.finish_compose(false);
    assert_eq!(colored.base().composed_hash, 1215560992426101461);
}

#[test]
fn button_finish_hashes_its_configuration() {
    let mut node: UINode<()> = make_node(NodeKind::Button, "b".to_string());
    node.begin_compose(1);
    node.finish_compose(false);
    assert_eq!(node.base().composed_hash, 2124002203505132753);

    let mut styled: UINode<()> = make_node(NodeKind::Button, "b".to_string());
    if let UINode::Button(b) = &mut styled {
        b.style = ButtonStyle::Primary;
    }
    styled.begin_compose(1);
    styled.finish_compose(false);
    assert_ne!(styled.base().composed_hash, 2124002203505132753);
}

#[test]
fn panel_finish_hashes_nothing_of_its_own() {
    let mut node: UINode<()> = make_node(NodeKind::Panel, "p".to_string());
    node.begin_compose(1);
    node.finish_compose(false);
    assert_eq!(node.base().composed_hash, COMPOSE_HASH_SEED);
    assert!(node.cache_dirty());
}

#[test]
fn rebuilding_unchanged_label_keeps_cache_clean() {
    let mut node: UINode<()> = make_node(NodeKind::Label, "l".to_string());
    node.begin_compose(1);
    node.finish_compose(false);
    node.clear_cache_dirty();
    assert!(!node.cache_dirty());
    node.begin_compose(2);
    node.finish_compose(false);
    assert!(!node.cache_dirty());
    if let UINode::Label(l) = &mut node {
        l.text = "changed".to_string();
    }
    node.begin_compose(3);
    node.finish_compose(false);
    assert!(node.cache_dirty());
}

#[test]
fn node_kind_names_and_keys() {
    let kinds = [
        (NodeKind::Label, "Label"),
        (NodeKind::Button, "Button"),
        (NodeKind::Panel, "Panel"),
        (NodeKind::GlassPanel, "GlassPanel"),
        (NodeKind::ProgressBar, "ProgressBar"),
        (NodeKind::Slider, "Slider"),
        (NodeKind::SegmentedControl, "SegmentedControl"),
        (NodeKind::InputBox, "InputBox"),
        (NodeKind::ComboBox, "ComboBox"),
        (NodeKind::Sidebar, "Sidebar"),
    ];
    for (kind, name) in kinds.iter() {
        let node: UINode<()> = make_node(*kind, "key".to_string());
        assert_eq!(node.kind_name(), *name);
        assert_eq!(node.key(), "key");
        assert!(node.cache_dirty());
    }
}

#[test]
fn font_size_and_hover_scales_change_the_hash() {
    let mut ctx: eui_neo_rust::ui::context::UIContext<()> = eui_neo_rust::ui::context::UIContext::new();
    ctx.begin("p");
    ctx.label("l").build(&mut ctx, false);
    ctx.button("b").build(&mut ctx, false);
    let label_hash = ctx.get_node("p.l").unwrap().base().composed_hash;
    let button_hash = ctx.get_node("p.b").unwrap().base().composed_hash;
    ctx.end();
    ctx.begin("p");
    let mut l = ctx.label("l").font_size(30.0f32.to_bits());
    l.node.clear_cache_dirty();
    l.build(&mut ctx, false);
    let mut b = ctx.button("b").hover_scale(1.0f32.to_bits(), 1.05f32.to_bits(), 0.2f32.to_bits());
    b.node.clear_cache_dirty();
    b.build(&mut ctx, false);
    assert_ne!(ctx.get_node("p.l").unwrap().base().composed_hash, label_hash);
    assert!(ctx.get_node("p.l").unwrap().cache_dirty());
    assert_ne!(ctx.get_node("p.b").unwrap().base().composed_hash, button_hash);
    assert!(ctx.get_node("p.b").unwrap().cache_dirty());
    let mut f = ctx.button("b").font_size(22.0f32.to_bits());
    if let UINode::Button(n) = &f.node {
        assert_eq!(n.font_size, 22.0f32.to_bits());
        assert_eq!(n.hover_scale_hover, 1.05f32.to_bits());
    }
    f.node.clear_cache_dirty();
    f.build(&mut ctx, false);
}

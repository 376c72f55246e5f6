use eui_neo_rust::ui::context::FlexDirection;
use eui_neo_rust::types::RenderLayer;
use eui_neo_rust::ui::context::UIContext;
use eui_neo_rust::ui::node::{NodeKind, UINode};

fn keys(list: &[String]) -> Vec<&str> {
    list.iter().map(|s| s.as_str()).collect()
}

#[test]
fn new_context_is_empty() {
    let ctx: UIContext<()> = UIContext::new();
    assert_eq!(ctx.node_count(), 0);
    assert_eq!(ctx.compose_stamp(), 0);
    assert_eq!(ctx.page_id(), "");
    assert!(ctx.order().is_empty());
    assert!(ctx.draw_order().is_empty());
    assert!(!ctx.tree_changed());
    assert!(!ctx.needs_recompose());
}

#[test]
fn full_key_joins_page_and_id() {
    let mut ctx: UIContext<()> = UIContext::new();
    assert_eq!(ctx.full_key("title"), "title");
    ctx.begin("home");
    assert_eq!(ctx.full_key("title"), "home.title");
    assert_eq!(ctx.page_id(), "home");
    assert_eq!(ctx.compose_stamp(), 1);
}

#[test]
fn building_a_label_retains_it() {
    let mut ctx: UIContext<()> = UIContext::new();
    ctx.begin("p");
    ctx.label("title").text("Hello").build(&mut ctx, false);
    assert!(ctx.tree_changed());
    assert_eq!(ctx.node_count(), 1);
    assert_eq!(keys(ctx.order()), vec!["p.title"]);
    let node = ctx.get_node("p.title").expect("node is retained");
    match node {
        UINode::Label(l) => {
            assert_eq!(l.text, "Hello");
            assert!(l.base.has_compose_snapshot);
            assert!(l.base.cache_dirty);
            assert_eq!(l.base.compose_stamp, 1);
        }
        _ => panic!("expected a label"),
    }
    assert!(ctx.get_node("p.other").is_none());
    ctx.end();
    assert_eq!(keys(ctx.draw_order()), vec!["p.title"]);
}

#[test]
fn second_pass_reuses_nodes_without_tree_change() {
    let mut ctx: UIContext<()> = UIContext::new();
    ctx.begin("p");
    ctx.button("ok").text("OK").build(&mut ctx, false);
    ctx.end();

    ctx.begin("p");
    assert!(ctx.order().is_empty());
    let builder = ctx.button("ok");
    assert!(!ctx.tree_changed());
    builder.text("OK").build(&mut ctx, false);
    ctx.end();
    assert_eq!(ctx.node_count(), 1);
    assert_eq!(keys(ctx.order()), vec!["p.ok"]);
    match ctx.get_node("p.ok") {
        Some(UINode::Button(b)) => {
            assert_eq!(b.text, "OK");
            assert_eq!(b.base.compose_stamp, 2);
        }
        _ => panic!("expected a button"),
    }
}

#[test]
fn taking_the_same_id_twice_in_a_pass_lists_it_once() {
    let mut ctx: UIContext<()> = UIContext::new();
    ctx.begin("p");
    ctx.panel("bg").build(&mut ctx, false);
    ctx.panel("bg").build(&mut ctx, false);
    assert_eq!(keys(ctx.order()), vec!["p.bg"]);
    assert_eq!(ctx.node_count(), 1);
}

#[test]
fn end_drops_nodes_not_composed_in_the_pass() {
    let mut ctx: UIContext<()> = UIContext::new();
    ctx.begin("p");
    ctx.label("a").build(&mut ctx, false);
    ctx.label("b").build(&mut ctx, false);
    ctx.end();
    assert_eq!(ctx.node_count(), 2);

    ctx.begin("p");
    ctx.label("b").build(&mut ctx, false);
    ctx.end();
    assert_eq!(ctx.node_count(), 1);
    assert!(ctx.get_node("p.a").is_none());
    assert!(ctx.get_node("p.b").is_some());
    assert_eq!(keys(ctx.draw_order()), vec!["p.b"]);
}

#[test]
fn draw_order_sorts_by_layer_then_z_keeping_ties() {
    let mut ctx: UIContext<()> = UIContext::new();
    ctx.begin("");
    let mut popup = ctx.panel("popup");
    popup.node.set_render_layer(RenderLayer::Popup);
    popup.build(&mut ctx, false);

    let mut back = ctx.panel("back");
    back.node.set_render_layer(RenderLayer::Backdrop);
    back.build(&mut ctx, false);

    let mut high = ctx.label("high");
    high.node.set_z_index(5);
    high.build(&mut ctx, false);

    ctx.label("first").build(&mut ctx, false);
    ctx.label("second").build(&mut ctx, false);

    let mut low = ctx.label("low");
    low.node.set_z_index(-1);
    low.build(&mut ctx, false);

    let mut chrome = ctx.sidebar("nav");
    chrome.node.set_render_layer(RenderLayer::Chrome);
    chrome.build(&mut ctx, false);

    ctx.end();
    assert_eq!(
        keys(ctx.order()),
        vec!["popup", "back", "high", "first", "second", "low", "nav"]
    );
    assert_eq!(
        keys(ctx.draw_order()),
        vec!["back", "low", "first", "second", "high", "nav", "popup"]
    );
}

#[test]
fn draw_order_keeps_keys_whose_node_was_not_put_back() {
    let mut ctx: UIContext<()> = UIContext::new();
    ctx.begin("p");
    ctx.label("kept").build(&mut ctx, false);
    let _dropped = ctx.label("lost");
    ctx.end();
    assert_eq!(keys(ctx.order()), vec!["p.kept", "p.lost"]);
    assert_eq!(keys(ctx.draw_order()), vec!["p.kept", "p.lost"]);
    assert_eq!(ctx.node_count(), 1);
}

#[test]
fn key_not_put_back_keeps_its_place_and_splits_the_sort() {
    let mut ctx: UIContext<()> = UIContext::new();
    ctx.begin("");
    let mut a = ctx.label("a");
    a.node.set_z_index(3);
    a.build(&mut ctx, false);
    ctx.label("b").build(&mut ctx, false);
    let _held = ctx.label("held");
    let mut c = ctx.label("c");
    c.node.set_z_index(2);
    c.build(&mut ctx, false);
    let mut d = ctx.label("d");
    d.node.set_z_index(-4);
    d.build(&mut ctx, false);
    ctx.end();
    assert_eq!(keys(ctx.order()), vec!["a", "b", "held", "c", "d"]);
    // Each run on either side of the held key is sorted on its own.
    assert_eq!(keys(ctx.draw_order()), vec!["b", "a", "held", "d", "c"]);
}

#[test]
fn rebuilding_unchanged_node_keeps_cache_clean() {
    let mut ctx: UIContext<()> = UIContext::new();
    ctx.begin("p");
    let mut b = ctx.label("t").text("same");
    b.node.clear_cache_dirty();
    b.build(&mut ctx, false);
    // The first pass always dirties the cache.
    assert!(ctx.get_node("p.t").unwrap().cache_dirty());
    ctx.end();

    ctx.begin("p");
    let mut b = ctx.label("t");
    b.node.clear_cache_dirty();
    b.text("same").build(&mut ctx, false);
    assert!(!ctx.get_node("p.t").unwrap().cache_dirty());
    ctx.end();

    ctx.begin("p");
    let mut b = ctx.label("t");
    b.node.clear_cache_dirty();
    b.text("different").build(&mut ctx, false);
    assert!(ctx.get_node("p.t").unwrap().cache_dirty());
}

#[test]
fn mark_all_nodes_dirty_dirties_every_cache() {
    let mut ctx: UIContext<()> = UIContext::new();
    ctx.begin("p");
    for id in ["a", "b", "c"].iter() {
        let mut b = ctx.panel(id);
        b.node.clear_cache_dirty();
        b.build(&mut ctx, false);
    }
    ctx.end();
    ctx.begin("p");
    for id in ["a", "b", "c"].iter() {
        let mut b = ctx.panel(id);
        b.node.clear_cache_dirty();
        b.build(&mut ctx, false);
    }
    for key in ["p.a", "p.b", "p.c"].iter() {
        assert!(!ctx.get_node(key).unwrap().cache_dirty());
    }
    ctx.mark_all_nodes_dirty();
    for key in ["p.a", "p.b", "p.c"].iter() {
        assert!(ctx.get_node(key).unwrap().cache_dirty());
    }
    assert_eq!(ctx.node_count(), 3);
}

#[test]
fn acquire_and_finalize_keep_node_in_place() {
    let mut ctx: UIContext<()> = UIContext::new();
    ctx.begin("p");
    let key = ctx.acquire_node("p.slot".to_string(), NodeKind::Slider);
    assert_eq!(key, "p.slot");
    assert!(ctx.tree_changed());
    assert_eq!(ctx.node_count(), 1);
    assert!(!ctx.get_node("p.slot").unwrap().base().has_compose_snapshot);
    ctx.finalize_build("p.slot", false);
    assert!(ctx.get_node("p.slot").unwrap().base().has_compose_snapshot);
    let again = ctx.acquire_node("p.slot".to_string(), NodeKind::Slider);
    assert_eq!(again, "p.slot");
    assert_eq!(keys(ctx.order()), vec!["p.slot"]);
    ctx.finalize_build("p.missing", false);
    assert_eq!(ctx.node_count(), 1);
    ctx.end();
    assert_eq!(keys(ctx.draw_order()), vec!["p.slot"]);
}

#[test]
fn take_for_builder_makes_node_of_requested_kind() {
    let mut ctx: UIContext<()> = UIContext::new();
    ctx.begin("x");
    let (node, key) = ctx.take_for_builder("w", NodeKind::ComboBox);
    assert_eq!(key, "x.w");
    assert_eq!(node.kind_name(), "ComboBox");
    assert_eq!(node.base().compose_stamp, 1);
    assert_eq!(ctx.node_count(), 0);
    ctx.return_and_finalize(key, node, false);
    assert_eq!(ctx.node_count(), 1);
    assert_eq!(ctx.get_node("x.w").unwrap().kind_name(), "ComboBox");
}

#[test]
fn every_factory_builds_its_kind() {
    let mut ctx: UIContext<()> = UIContext::new();
    ctx.begin("k");
    ctx.label("a").build(&mut ctx, false);
    ctx.button("b").build(&mut ctx, false);
    ctx.panel("c").build(&mut ctx, false);
    ctx.glass_panel("d").build(&mut ctx, false);
    ctx.progress("e").build(&mut ctx, false);
    ctx.slider("f").build(&mut ctx, false);
    ctx.segmented("g").build(&mut ctx, false);
    ctx.input("h").build(&mut ctx, false);
    ctx.combo("i").build(&mut ctx, false);
    ctx.sidebar("j").build(&mut ctx, false);
    ctx.end();
    let expect = [
        ("k.a", "Label"),
        ("k.b", "Button"),
        ("k.c", "Panel"),
        ("k.d", "GlassPanel"),
        ("k.e", "ProgressBar"),
        ("k.f", "Slider"),
        ("k.g", "SegmentedControl"),
        ("k.h", "InputBox"),
        ("k.i", "ComboBox"),
        ("k.j", "Sidebar"),
    ];
    for (key, kind) in expect.iter() {
        assert_eq!(ctx.get_node(key).unwrap().kind_name(), *kind);
    }
    assert_eq!(ctx.node_count(), 10);
    assert_eq!(ctx.draw_order().len(), 10);
}

#[test]
fn get_node_mut_edits_the_retained_node() {
    let mut ctx: UIContext<()> = UIContext::new();
    ctx.begin("p");
    ctx.label("t").text("a").build(&mut ctx, false);
    match ctx.get_node_mut("p.t") {
        Some(UINode::Label(l)) => l.text = "b".to_string(),
        _ => panic!("expected a label"),
    }
    match ctx.get_node("p.t") {
        Some(UINode::Label(l)) => assert_eq!(l.text, "b"),
        _ => panic!("expected a label"),
    }
    assert!(ctx.get_node_mut("p.none").is_none());
    assert_eq!(ctx.node_count(), 1);
}

#[test]
fn begin_clears_orders_and_flags() {
    let mut ctx: UIContext<()> = UIContext::new();
    ctx.begin("a");
    ctx.label("x").build(&mut ctx, false);
    ctx.end();
    assert!(ctx.tree_changed());
    ctx.begin("b");
    assert_eq!(ctx.compose_stamp(), 2);
    assert_eq!(ctx.page_id(), "b");
    assert!(ctx.order().is_empty());
    assert!(ctx.draw_order().is_empty());
    assert!(!ctx.tree_changed());
    assert!(!ctx.needs_recompose());
    assert_eq!(ctx.node_count(), 1);
}

#[test]
fn ending_twice_keeps_nodes_and_draw_order() {
    let mut ctx: UIContext<()> = UIContext::new();
    ctx.begin("p");
    ctx.label("a").build(&mut ctx, false);
    let mut b = ctx.panel("b");
    b.node.set_render_layer(RenderLayer::Backdrop);
    b.build(&mut ctx, false);
    ctx.end();
    let first: Vec<String> = ctx.draw_order().to_vec();
    ctx.end();
    assert_eq!(ctx.node_count(), 2);
    assert_eq!(ctx.draw_order().to_vec(), first);
    assert_eq!(keys(ctx.draw_order()), vec!["p.b", "p.a"]);
}

#[test]
fn equal_layers_and_z_keep_compose_order() {
    let mut ctx: UIContext<()> = UIContext::new();
    ctx.begin("");
    for id in ["e", "d", "c", "b", "a"].iter() {
        ctx.button(id).build(&mut ctx, false);
    }
    ctx.end();
    assert_eq!(keys(ctx.draw_order()), vec!["e", "d", "c", "b", "a"]);
}

#[test]
fn consume_recompose_request_consumes_every_request() {
    let mut ctx: UIContext<()> = UIContext::new();
    ctx.begin("p");
    ctx.label("a").build(&mut ctx, false);
    ctx.label("b").build(&mut ctx, false);
    assert!(!ctx.consume_recompose_request());
    if let Some(UINode::Label(l)) = ctx.get_node_mut("p.a") {
        l.base.request_compose_rebuild();
    }
    if let Some(UINode::Label(l)) = ctx.get_node_mut("p.b") {
        l.base.request_compose_rebuild();
    }
    assert!(ctx.consume_recompose_request());
    assert!(!ctx.get_node("p.a").unwrap().base().recompose_requested);
    assert!(!ctx.get_node("p.b").unwrap().base().recompose_requested);
    assert!(!ctx.consume_recompose_request());
    assert_eq!(ctx.node_count(), 2);
}

#[test]
fn clip_applies_to_nodes_that_clip_to_their_parent() {
    let mut ctx: UIContext<()> = UIContext::new();
    ctx.begin("p");
    ctx.label("outside").build(&mut ctx, false);
    ctx.push_clip();
    ctx.label("inside").build(&mut ctx, false);
    let mut free = ctx.panel("free");
    if let UINode::Panel(b) = &mut free.node {
        b.clip_to_parent = false;
    }
    free.build(&mut ctx, false);
    ctx.pop_clip();
    ctx.pop_clip();
    ctx.label("after").build(&mut ctx, false);
    assert!(!ctx.get_node("p.outside").unwrap().base().has_clip_rect);
    assert!(ctx.get_node("p.inside").unwrap().base().has_clip_rect);
    assert!(!ctx.get_node("p.free").unwrap().base().has_clip_rect);
    assert!(!ctx.get_node("p.after").unwrap().base().has_clip_rect);
}

#[test]
fn built_nodes_join_the_open_layout() {
    let mut ctx: UIContext<()> = UIContext::new();
    ctx.begin("p");
    let row = ctx.create_layout(FlexDirection::Row);
    let col = ctx.create_layout(FlexDirection::Column);
    assert_eq!((row, col), (0, 1));
    ctx.label("before").build(&mut ctx, false);
    ctx.begin_layout(row);
    ctx.label("a").build(&mut ctx, false);
    ctx.begin_layout(col);
    ctx.button("b").build(&mut ctx, false);
    ctx.end_layout(row);
    ctx.acquire_node("p.c".to_string(), NodeKind::Panel);
    ctx.finalize_build("p.c", false);
    ctx.end_layout(col);
    ctx.label("d").build(&mut ctx, false);
    ctx.end_layout(row);
    ctx.layout_set_direction(col, FlexDirection::Row);
    ctx.layout_set_direction(9, FlexDirection::Column);
    let r = ctx.layout(row).unwrap();
    assert_eq!(r.direction, FlexDirection::Row);
    assert_eq!(keys(&r.children), vec!["p.a", "p.d"]);
    let c = ctx.layout(col).unwrap();
    assert_eq!(c.direction, FlexDirection::Row);
    assert_eq!(keys(&c.children), vec!["p.b", "p.c"]);
    assert!(ctx.layout(2).is_none());
    ctx.begin("p");
    assert!(ctx.layout(0).is_none());
}

#[test]
fn acquire_applies_the_clip() {
    let mut ctx: UIContext<()> = UIContext::new();
    ctx.begin("p");
    ctx.push_clip();
    ctx.acquire_node("p.x".to_string(), NodeKind::Label);
    assert!(ctx.get_node("p.x").unwrap().base().has_clip_rect);
    ctx.pop_clip();
    ctx.acquire_node("p.x".to_string(), NodeKind::Label);
    assert!(!ctx.get_node("p.x").unwrap().base().has_clip_rect);
    assert_eq!(keys(ctx.order()), vec!["p.x"]);
}

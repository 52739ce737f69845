use loom::geometry::Rect;
use loom::style::{Align, Dimension, EdgeInsets, FlexWrap, Justify, Style};
use loom::widget::{assign_ids, Node, WidgetKind};

fn leaf(kind: WidgetKind) -> Node<Style<f64>, Rect<f64>> {
    Node {
        id: 0,
        kind,
        style: Style::default(),
        children: Vec::new(),
        rect: Rect::new(0.0, 0.0, 0.0, 0.0),
    }
}

fn text(s: &str) -> Node<Style<f64>, Rect<f64>> {
    leaf(WidgetKind::Text(s.to_string()))
}

fn row() -> Node<Style<f64>, Rect<f64>> {
    leaf(WidgetKind::Container)
}

fn column() -> Node<Style<f64>, Rect<f64>> {
    let mut n = leaf(WidgetKind::Container);
    n.style.direction = loom::style::Direction::Column;
    n
}

#[test]
fn ids_are_preorder_and_unique() {
    let mut root = row().children(vec![
        text("a"),
        column().children(vec![text("b"), text("c")]),
    ]);
    assign_ids(&mut root);
    assert_eq!(root.id, 0);
    assert_eq!(root.children[0].id, 1);
    assert_eq!(root.children[1].id, 2);
    assert_eq!(root.children[1].children[0].id, 3);
    assert_eq!(root.children[1].children[1].id, 4);
}

#[test]
fn assign_ids_overwrites_stale_ids_and_keeps_shape() {
    let mut a = text("x");
    a.id = 42;
    let mut b = leaf(WidgetKind::Box);
    b.id = 7;
    let mut root = row().child(a).child(b).child(leaf(WidgetKind::Spacer));
    root.id = 9;
    assign_ids(&mut root);
    assert_eq!(root.id, 0);
    assert_eq!(root.children.len(), 3);
    assert_eq!(root.children[0].id, 1);
    assert_eq!(root.children[0].kind, WidgetKind::Text("x".to_string()));
    assert_eq!(root.children[1].id, 2);
    assert_eq!(root.children[1].kind, WidgetKind::Box);
    assert_eq!(root.children[2].id, 3);
    assert_eq!(root.children[2].kind, WidgetKind::Spacer);
}

#[test]
fn assign_ids_is_stable_when_run_twice() {
    let mut root = row().child(column().child(text("a")).child(text("b"))).child(text("c"));
    assign_ids(&mut root);
    assign_ids(&mut root);
    assert_eq!(root.id, 0);
    assert_eq!(root.children[0].id, 1);
    assert_eq!(root.children[0].children[0].id, 2);
    assert_eq!(root.children[0].children[1].id, 3);
    assert_eq!(root.children[1].id, 4);
}

#[test]
fn deep_chain_numbers_down_the_chain() {
    let mut root = row().child(row().child(row().child(text("deep"))));
    assign_ids(&mut root);
    assert_eq!(root.id, 0);
    assert_eq!(root.children[0].id, 1);
    assert_eq!(root.children[0].children[0].id, 2);
    assert_eq!(root.children[0].children[0].children[0].id, 3);
}

#[test]
fn single_node_gets_zero() {
    let mut root = leaf(WidgetKind::Box);
    root.id = 5;
    assign_ids(&mut root);
    assert_eq!(root.id, 0);
}

#[test]
fn is_container_only_for_containers() {
    assert!(row().is_container());
    assert!(!text("a").is_container());
    assert!(!leaf(WidgetKind::Button("b".to_string())).is_container());
    assert!(!leaf(WidgetKind::Box).is_container());
    assert!(!leaf(WidgetKind::Spacer).is_container());
}

#[test]
fn child_appends_in_order_and_children_replaces() {
    let n = row().child(text("a")).child(text("b"));
    assert_eq!(n.children.len(), 2);
    assert_eq!(n.children[0].kind, WidgetKind::Text("a".to_string()));
    assert_eq!(n.children[1].kind, WidgetKind::Text("b".to_string()));
    let n = n.children(vec![leaf(WidgetKind::Box)]);
    assert_eq!(n.children.len(), 1);
    assert_eq!(n.children[0].kind, WidgetKind::Box);
}

#[test]
fn constructors_start_from_the_default_style() {
    let n: Node<Style<f64>, Rect<f64>> = Node::text("hello");
    assert_eq!(n.id, 0);
    assert_eq!(n.kind, WidgetKind::Text("hello".to_string()));
    assert_eq!(n.style, Style::default());
    assert_eq!(n.rect, Rect::new(0.0, 0.0, 0.0, 0.0));
    assert!(n.children.is_empty());

    let c: Node<Style<f64>, Rect<f64>> = Node::column();
    assert_eq!(c.kind, WidgetKind::Container);
    assert_eq!(c.style.direction, loom::style::Direction::Column);
    let r: Node<Style<f64>, Rect<f64>> = Node::row();
    assert_eq!(r.style.direction, loom::style::Direction::Row);
    let b: Node<Style<f64>, Rect<f64>> = Node::button("go");
    assert_eq!(b.kind, WidgetKind::Button("go".to_string()));
    let x: Node<Style<f64>, Rect<f64>> = Node::boxed();
    assert_eq!(x.kind, WidgetKind::Box);
    let s: Node<Style<f64>, Rect<f64>> = Node::spacer();
    assert_eq!(s.kind, WidgetKind::Spacer);
}

#[test]
fn setters_change_only_their_style_field() {
    let n: Node<Style<f64>, Rect<f64>> = Node::row()
        .width(200.0)
        .height(40.0)
        .gap(8.0)
        .grow(1.5)
        .shrink(0.5)
        .justify(Justify::End)
        .align(Align::Center)
        .wrap()
        .padding(EdgeInsets::all(2.0))
        .border(EdgeInsets::all(1.0))
        .margin(EdgeInsets::symmetric(3.0, 4.0));
    assert_eq!(n.style.width, Dimension::Points(200.0));
    assert_eq!(n.style.height, Dimension::Points(40.0));
    assert_eq!(n.style.gap, 8.0);
    assert_eq!(n.style.flex_grow, 1.5);
    assert_eq!(n.style.flex_shrink, 0.5);
    assert_eq!(n.style.justify, Justify::End);
    assert_eq!(n.style.align, Align::Center);
    assert_eq!(n.style.flex_wrap, FlexWrap::Wrap);
    assert_eq!(n.style.padding, EdgeInsets::all(2.0));
    assert_eq!(n.style.border, EdgeInsets::all(1.0));
    assert_eq!(n.style.margin, EdgeInsets::symmetric(3.0, 4.0));
    assert_eq!(n.style.min_width, Dimension::Auto);
    assert_eq!(n.kind, WidgetKind::Container);

    let restyled = n.with_style(Style::default());
    assert_eq!(restyled.style, Style::default());
    assert_eq!(restyled.kind, WidgetKind::Container);
}

#[test]
fn clone_copies_the_whole_tree() {
    let mut root = row().child(text("a")).child(column().child(text("b")));
    assign_ids(&mut root);
    let copy = root.clone();
    assert_eq!(copy, root);
}

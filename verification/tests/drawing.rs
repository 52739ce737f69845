use loom::geometry::Rect;
use loom::render::{kind_name, render, DrawCall, RecordingRenderer};
use loom::style::Style;
use loom::widget::{assign_ids, Node, WidgetKind};

fn node(kind: WidgetKind, rect: Rect<f64>) -> Node<Style<f64>, Rect<f64>> {
    Node { id: 0, kind, style: Style::default(), children: Vec::new(), rect }
}

#[test]
fn kind_names() {
    assert_eq!(kind_name(&WidgetKind::Container), "container");
    assert_eq!(kind_name(&WidgetKind::Text("t".to_string())), "text");
    assert_eq!(kind_name(&WidgetKind::Button("b".to_string())), "button");
    assert_eq!(kind_name(&WidgetKind::Box), "box");
    assert_eq!(kind_name(&WidgetKind::Spacer), "spacer");
}

#[test]
fn records_container_box_and_text_in_preorder() {
    let mut root = node(WidgetKind::Container, Rect::new(0.0, 0.0, 100.0, 20.0))
        .child(node(WidgetKind::Box, Rect::new(0.0, 0.0, 80.0, 20.0)))
        .child(node(WidgetKind::Text("hi".to_string()), Rect::new(80.0, 0.0, 20.0, 20.0)));
    assign_ids(&mut root);

    let mut rec = RecordingRenderer::new();
    render(&root, &mut rec);

    // container, box, then text emits both a rect and a text call.
    assert_eq!(rec.calls.len(), 4);
    assert_eq!(
        rec.calls[0],
        DrawCall::Rect { id: 0, kind: "container", rect: Rect::new(0.0, 0.0, 100.0, 20.0) }
    );
    assert_eq!(
        rec.calls[1],
        DrawCall::Rect { id: 1, kind: "box", rect: Rect::new(0.0, 0.0, 80.0, 20.0) }
    );
    assert_eq!(
        rec.calls[2],
        DrawCall::Rect { id: 2, kind: "text", rect: Rect::new(80.0, 0.0, 20.0, 20.0) }
    );
    assert_eq!(
        rec.calls[3],
        DrawCall::Text { id: 2, rect: Rect::new(80.0, 0.0, 20.0, 20.0), text: "hi".to_string() }
    );
}

#[test]
fn button_emits_rect_then_label() {
    let root = node(WidgetKind::Button("Save".to_string()), Rect::new(1.0, 2.0, 3.0, 4.0));
    let mut rec = RecordingRenderer::default();
    render(&root, &mut rec);
    assert_eq!(rec.calls.len(), 2);
    assert_eq!(
        rec.calls[0],
        DrawCall::Rect { id: 0, kind: "button", rect: Rect::new(1.0, 2.0, 3.0, 4.0) }
    );
    assert_eq!(
        rec.calls[1],
        DrawCall::Text { id: 0, rect: Rect::new(1.0, 2.0, 3.0, 4.0), text: "Save".to_string() }
    );
}

#[test]
fn render_appends_to_earlier_calls() {
    let a = node(WidgetKind::Spacer, Rect::new(0.0, 0.0, 1.0, 1.0));
    let b = node(WidgetKind::Box, Rect::new(5.0, 5.0, 1.0, 1.0));
    let mut rec = RecordingRenderer::new();
    render(&a, &mut rec);
    render(&b, &mut rec);
    assert_eq!(rec.calls.len(), 2);
    assert_eq!(
        rec.calls[0],
        DrawCall::Rect { id: 0, kind: "spacer", rect: Rect::new(0.0, 0.0, 1.0, 1.0) }
    );
    assert_eq!(
        rec.calls[1],
        DrawCall::Rect { id: 0, kind: "box", rect: Rect::new(5.0, 5.0, 1.0, 1.0) }
    );
}

#[test]
fn nested_tree_draws_one_rect_per_node_in_preorder() {
    let mut root = node(WidgetKind::Container, Rect::new(0.0, 0.0, 10.0, 10.0))
        .child(
            node(WidgetKind::Container, Rect::new(0.0, 0.0, 5.0, 10.0))
                .child(node(WidgetKind::Box, Rect::new(0.0, 0.0, 5.0, 5.0))),
        )
        .child(node(WidgetKind::Spacer, Rect::new(5.0, 0.0, 5.0, 10.0)));
    assign_ids(&mut root);
    let mut rec = RecordingRenderer::new();
    render(&root, &mut rec);
    let ids: Vec<usize> = rec
        .calls
        .iter()
        .map(|c| match c {
            DrawCall::Rect { id, .. } => *id,
            DrawCall::Text { .. } => usize::MAX,
        })
        .collect();
    assert_eq!(ids, vec![0, 1, 2, 3]);
}

#[test]
fn records_calls_in_preorder() {
    // The assertions concern only the order and kinds of the calls, which do
    // not depend on the rectangles layout would fill in.
    let mut root: Node<Style<f64>, Rect<f64>> = Node::row()
        .width(100.0)
        .height(20.0)
        .child(Node::boxed().grow(1.0))
        .child(Node::text("hi").width(20.0));
    assign_ids(&mut root);

    let mut rec = RecordingRenderer::new();
    render(&root, &mut rec);

    // container, box, then text emits both a rect and a text call.
    assert_eq!(rec.calls.len(), 4);
    match &rec.calls[0] {
        DrawCall::Rect { kind, .. } => assert_eq!(*kind, "container"),
        _ => panic!("expected container rect first"),
    }
    match &rec.calls[3] {
        DrawCall::Text { text, .. } => assert_eq!(text, "hi"),
        _ => panic!("expected text call last"),
    }
}

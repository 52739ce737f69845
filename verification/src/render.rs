//! A headless rendering abstraction.
//!
//! The core never touches a real graphics API. It walks the laid out tree and
//! emits draw calls into a [`Renderer`]. The [`RecordingRenderer`] captures
//! those calls so they can be inspected without a screen.

use vstd::prelude::*;

use crate::widget::{forest_ids, Node, WidgetKind};

verus! {

/// A single primitive the engine asks the backend to draw. `R` is the
/// rectangle type of the tree being drawn.
#[derive(Debug, Clone, PartialEq)]
pub enum DrawCall<R> {
    /// A filled or bordered rectangle for a container, box, button or spacer.
    Rect { id: usize, kind: &'static str, rect: R },
    /// A text run positioned at its border box.
    Text { id: usize, rect: R, text: String },
}

/// The mathematical value of a draw call, with its strings as character sequences.
pub enum Drawn<R> {
    Rect { id: usize, kind: Seq<char>, rect: R },
    Text { id: usize, rect: R, text: Seq<char> },
}

impl<R> View for DrawCall<R> {
    type V = Drawn<R>;

    open spec fn view(&self) -> Drawn<R> {
        match self {
            DrawCall::Rect { id, kind, rect } => Drawn::Rect { id: *id, kind: kind@, rect: *rect },
            DrawCall::Text { id, rect, text } => Drawn::Text { id: *id, rect: *rect, text: text@ },
        }
    }
}

/// A drawing backend. Implementors turn draw calls into pixels, terminal
/// output, SVG or anything else. `drawn` is the sequence of calls the backend
/// has received so far; each method appends the call it is given.
pub trait Renderer<R>: Sized {
    spec fn drawn(&self) -> Seq<Drawn<R>>;

    fn draw_rect(&mut self, id: usize, kind: &'static str, rect: R)
        ensures
            final(self).drawn() == old(self).drawn().push(Drawn::Rect { id, kind: kind@, rect }),
    ;

    fn draw_text(&mut self, id: usize, rect: R, text: &str)
        ensures
            final(self).drawn() == old(self).drawn().push(Drawn::Text { id, rect, text: text@ }),
    ;
}

/// A renderer that records every draw call in order instead of drawing.
#[derive(Debug)]
pub struct RecordingRenderer<R> {
    pub calls: Vec<DrawCall<R>>,
}

impl<R> RecordingRenderer<R> {
    pub fn new() -> (r: RecordingRenderer<R>)
        ensures
            r.calls@.len() == 0,
    {
        RecordingRenderer { calls: Vec::new() }
    }
}

impl<R> Default for RecordingRenderer<R> {
    fn default() -> (r: RecordingRenderer<R>)
        ensures
            r.calls@.len() == 0,
    {
        RecordingRenderer { calls: Vec::new() }
    }
}

impl<R> Renderer<R> for RecordingRenderer<R> {
    open spec fn drawn(&self) -> Seq<Drawn<R>> {
        self.calls@.map_values(|c: DrawCall<R>| c@)
    }

    fn draw_rect(&mut self, id: usize, kind: &'static str, rect: R) {
        self.calls.push(DrawCall::Rect { id, kind, rect });
        proof {
            assert(self.drawn() =~= old(self).drawn().push(Drawn::Rect { id, kind: kind@, rect }));
        }
    }

    fn draw_text(&mut self, id: usize, rect: R, text: &str) {
        let owned = text.to_owned();
        self.calls.push(DrawCall::Text { id, rect, text: owned });
        proof {
            assert(self.drawn() =~= old(self).drawn().push(Drawn::Text { id, rect, text: text@ }));
        }
    }
}

/// The spec-level name of a widget kind, as handed to the renderer.
pub open spec fn kind_label(kind: WidgetKind) -> Seq<char> {
    match kind {
        WidgetKind::Container => "container"@,
        WidgetKind::Text(_) => "text"@,
        WidgetKind::Button(_) => "button"@,
        WidgetKind::Box => "box"@,
        WidgetKind::Spacer => "spacer"@,
    }
}

/// The short lower case name of a widget kind.
pub fn kind_name(kind: &WidgetKind) -> (name: &'static str)
    ensures
        name@ == kind_label(*kind),
{
    match kind {
        WidgetKind::Container => "container",
        WidgetKind::Text(_) => "text",
        WidgetKind::Button(_) => "button",
        WidgetKind::Box => "box",
        WidgetKind::Spacer => "spacer",
    }
}

/// The calls a single node emits, before those of its children: its rectangle,
/// then its label for text and buttons.
pub open spec fn own_calls<S, R>(node: Node<S, R>) -> Seq<Drawn<R>> {
    let frame = Drawn::Rect { id: node.id, kind: kind_label(node.kind), rect: node.rect };
    match node.kind {
        WidgetKind::Text(s) => seq![frame, Drawn::Text { id: node.id, rect: node.rect, text: s@ }],
        WidgetKind::Button(s) => seq![frame, Drawn::Text { id: node.id, rect: node.rect, text: s@ }],
        _ => seq![frame],
    }
}

/// The calls emitted for a list of sibling subtrees, in order.
pub open spec fn forest_calls<S, R>(s: Seq<Node<S, R>>) -> Seq<Drawn<R>>
    decreases s,
{
    if s.len() == 0 {
        Seq::empty()
    } else {
        forest_calls(s.drop_last()) + tree_calls(s.last())
    }
}

/// The calls emitted for a subtree in preorder.
pub open spec fn tree_calls<S, R>(node: Node<S, R>) -> Seq<Drawn<R>>
    decreases node,
{
    own_calls(node) + forest_calls(node.children@)
}

proof fn lemma_forest_calls_take_step<S, R>(s: Seq<Node<S, R>>, i: int)
    requires
        0 <= i < s.len(),
    ensures
        forest_calls(s.take(i + 1)) == forest_calls(s.take(i)) + tree_calls(s[i]),
{
    assert(s.take(i + 1).drop_last() =~= s.take(i));
    assert(s.take(i + 1).last() == s[i]);
}

/// The ids carried by the rectangle calls of a call sequence, in order.
pub open spec fn frame_ids<R>(s: Seq<Drawn<R>>) -> Seq<usize>
    decreases s.len(),
{
    if s.len() == 0 {
        Seq::empty()
    } else {
        let rest = frame_ids(s.drop_last());
        match s.last() {
            Drawn::Rect { id, .. } => rest.push(id),
            Drawn::Text { .. } => rest,
        }
    }
}

proof fn lemma_frame_ids_concat<R>(a: Seq<Drawn<R>>, b: Seq<Drawn<R>>)
    ensures
        frame_ids(a + b) == frame_ids(a) + frame_ids(b),
    decreases b.len(),
{
    if b.len() == 0 {
        assert(a + b =~= a);
        assert(frame_ids(a) + frame_ids(b) =~= frame_ids(a));
    } else {
        assert((a + b).drop_last() =~= a + b.drop_last());
        assert((a + b).last() == b.last());
        lemma_frame_ids_concat(a, b.drop_last());
        match b.last() {
            Drawn::Rect { id, .. } => {
                assert(frame_ids(a) + frame_ids(b.drop_last()).push(id)
                    =~= (frame_ids(a) + frame_ids(b.drop_last())).push(id));
            },
            Drawn::Text { .. } => {},
        }
    }
}

/// Rendering a tree draws exactly one rectangle per node, in preorder: the
/// rectangle calls carry the node ids in the order `assign_ids` numbers them.
pub proof fn lemma_render_frames_in_preorder<S, R>(node: Node<S, R>)
    ensures
        frame_ids(tree_calls(node)) == node.ids(),
    decreases node,
{
    lemma_forest_frames_in_preorder(node.children@);
    lemma_frame_ids_concat(own_calls(node), forest_calls(node.children@));
    let frame = Drawn::Rect { id: node.id, kind: kind_label(node.kind), rect: node.rect };
    assert(seq![frame].drop_last() =~= Seq::<Drawn<R>>::empty());
    assert(frame_ids(Seq::<Drawn<R>>::empty()) =~= Seq::<usize>::empty());
    assert(frame_ids(seq![frame]) =~= seq![node.id]);
    match node.kind {
        WidgetKind::Text(t) => {
            let own = own_calls(node);
            assert(own.drop_last() =~= seq![frame]);
        },
        WidgetKind::Button(t) => {
            let own = own_calls(node);
            assert(own.drop_last() =~= seq![frame]);
        },
        _ => {},
    }
    assert(frame_ids(own_calls(node)) =~= seq![node.id]);
}

/// Over a list of sibling subtrees, the rectangle calls carry the preorder ids.
pub proof fn lemma_forest_frames_in_preorder<S, R>(s: Seq<Node<S, R>>)
    ensures
        frame_ids(forest_calls(s)) == forest_ids(s),
    decreases s,
{
    if s.len() > 0 {
        lemma_forest_frames_in_preorder(s.drop_last());
        lemma_render_frames_in_preorder(s.last());
        lemma_frame_ids_concat(forest_calls(s.drop_last()), tree_calls(s.last()));
    }
}

/// The first calls for a subtree belong to its root: the root's rectangle,
/// with its id, kind name and rectangle, then, for a text or a button, the
/// root's whole label at that same rectangle.
pub proof fn lemma_render_starts_with_root<S, R>(node: Node<S, R>)
    ensures
        tree_calls(node).len() >= 1,
        tree_calls(node)[0] == (Drawn::Rect { id: node.id, kind: kind_label(node.kind), rect: node.rect }),
        node.kind matches WidgetKind::Text(t) ==> tree_calls(node)[1] == (Drawn::Text {
            id: node.id,
            rect: node.rect,
            text: t@,
        }),
        node.kind matches WidgetKind::Button(t) ==> tree_calls(node)[1] == (Drawn::Text {
            id: node.id,
            rect: node.rect,
            text: t@,
        }),
{
}

/// The label a node carries, with its id and rectangle: one entry for a text
/// or a button, none for other kinds.
pub open spec fn own_label<S, R>(node: Node<S, R>) -> Seq<(usize, R, Seq<char>)> {
    match node.kind {
        WidgetKind::Text(t) => seq![(node.id, node.rect, t@)],
        WidgetKind::Button(t) => seq![(node.id, node.rect, t@)],
        _ => Seq::empty(),
    }
}

/// The labels of a list of sibling subtrees, each subtree in preorder.
pub open spec fn forest_labels<S, R>(s: Seq<Node<S, R>>) -> Seq<(usize, R, Seq<char>)>
    decreases s,
{
    if s.len() == 0 {
        Seq::empty()
    } else {
        forest_labels(s.drop_last()) + tree_labels(s.last())
    }
}

/// The labels of a subtree in preorder: the node's own, then its children's.
pub open spec fn tree_labels<S, R>(node: Node<S, R>) -> Seq<(usize, R, Seq<char>)>
    decreases node,
{
    own_label(node) + forest_labels(node.children@)
}

/// The id, rectangle and text of the text calls of a call sequence, in order.
pub open spec fn text_calls<R>(s: Seq<Drawn<R>>) -> Seq<(usize, R, Seq<char>)>
    decreases s.len(),
{
    if s.len() == 0 {
        Seq::empty()
    } else {
        let rest = text_calls(s.drop_last());
        match s.last() {
            Drawn::Rect { .. } => rest,
            Drawn::Text { id, rect, text } => rest.push((id, rect, text)),
        }
    }
}

proof fn lemma_text_calls_concat<R>(a: Seq<Drawn<R>>, b: Seq<Drawn<R>>)
    ensures
        text_calls(a + b) == text_calls(a) + text_calls(b),
    decreases b.len(),
{
    if b.len() == 0 {
        assert(a + b =~= a);
        assert(text_calls(a) + text_calls(b) =~= text_calls(a));
    } else {
        assert((a + b).drop_last() =~= a + b.drop_last());
        assert((a + b).last() == b.last());
        lemma_text_calls_concat(a, b.drop_last());
        match b.last() {
            Drawn::Text { id, rect, text } => {
                assert(text_calls(a) + text_calls(b.drop_last()).push((id, rect, text))
                    =~= (text_calls(a) + text_calls(b.drop_last())).push((id, rect, text)));
            },
            Drawn::Rect { .. } => {},
        }
    }
}

/// Rendering a tree draws every text and button label exactly once and whole:
/// the text calls, in order, are the labels of the labelled nodes in preorder,
/// each with that node's id and rectangle.
pub proof fn lemma_render_labels_in_preorder<S, R>(node: Node<S, R>)
    ensures
        text_calls(tree_calls(node)) == tree_labels(node),
    decreases node,
{
    lemma_forest_labels_in_preorder(node.children@);
    lemma_text_calls_concat(own_calls(node), forest_calls(node.children@));
    let frame = Drawn::Rect { id: node.id, kind: kind_label(node.kind), rect: node.rect };
    assert(seq![frame].drop_last() =~= Seq::<Drawn<R>>::empty());
    assert(text_calls(Seq::<Drawn<R>>::empty()) =~= Seq::<(usize, R, Seq<char>)>::empty());
    assert(text_calls(seq![frame]) =~= Seq::<(usize, R, Seq<char>)>::empty());
    match node.kind {
        WidgetKind::Text(t) => {
            let own = own_calls(node);
            assert(own.drop_last() =~= seq![frame]);
            assert(text_calls(own) =~= own_label(node));
        },
        WidgetKind::Button(t) => {
            let own = own_calls(node);
            assert(own.drop_last() =~= seq![frame]);
            assert(text_calls(own) =~= own_label(node));
        },
        _ => {
            assert(text_calls(own_calls(node)) =~= own_label(node));
        },
    }
}

/// Over a list of sibling subtrees, the text calls are the labels in preorder.
pub proof fn lemma_forest_labels_in_preorder<S, R>(s: Seq<Node<S, R>>)
    ensures
        text_calls(forest_calls(s)) == forest_labels(s),
    decreases s,
{
    if s.len() > 0 {
        lemma_forest_labels_in_preorder(s.drop_last());
        lemma_render_labels_in_preorder(s.last());
        lemma_text_calls_concat(forest_calls(s.drop_last()), tree_calls(s.last()));
    }
}

/// Walks the laid out tree in preorder and emits draw calls. The tree must be
/// laid out first so every node has a computed rect.
pub fn render<S, R: Copy, D: Renderer<R>>(node: &Node<S, R>, r: &mut D)
    ensures
        final(r).drawn() == old(r).drawn() + tree_calls(*node),
    decreases node,
{
    let name = kind_name(&node.kind);
    r.draw_rect(node.id, name, node.rect);
    match &node.kind {
        WidgetKind::Text(s) => {
            r.draw_text(node.id, node.rect, s.as_str());
        },
        WidgetKind::Button(s) => {
            r.draw_text(node.id, node.rect, s.as_str());
        },
        _ => {},
    }
    let ghost after_own = r.drawn();
    proof {
        assert(after_own =~= old(r).drawn() + own_calls(*node));
        assert(node.children@.take(0) =~= Seq::<Node<S, R>>::empty());
    }
    let n = node.children.len();
    let mut i: usize = 0;
    while i < n
        invariant
            i <= n,
            n == node.children@.len(),
            r.drawn() == after_own + forest_calls(node.children@.take(i as int)),
        decreases n - i,
    {
        render(&node.children[i], r);
        proof {
            lemma_forest_calls_take_step(node.children@, i as int);
            assert(r.drawn() =~= after_own + forest_calls(node.children@.take(i as int + 1)));
        }
        i = i + 1;
    }
    proof {
        assert(node.children@.take(n as int) =~= node.children@);
        assert(r.drawn() =~= old(r).drawn() + tree_calls(*node));
    }
}

} // verus!

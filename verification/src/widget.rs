//! The retained widget tree.
//!
//! A `Node` owns its kind, its style, its children and, after layout, its
//! computed rectangle. The style and rectangle types are parameters: the tree
//! algorithms here read and write only ids, kinds and children.

use vstd::prelude::*;

use crate::geometry::Rect;
use crate::style::{Align, Dimension, Direction, EdgeInsets, FlexWrap, Justify, Style};

verus! {

/// The kind of a widget. Containers hold children; leaves do not.
#[derive(Debug, Clone, PartialEq)]
pub enum WidgetKind {
    /// A layout container that arranges its children along an axis.
    Container,
    /// A run of text. Its intrinsic size is derived from the string length.
    Text(String),
    /// A clickable button that carries a text label.
    Button(String),
    /// A plain rectangle with no intrinsic content size.
    Box,
    /// An empty flexible gap, typically given a grow factor to push siblings apart.
    Spacer,
}

/// A node in the widget tree. A node owns its children and, after layout, its
/// computed border box rectangle.
#[verifier::reject_recursive_types(S)]
#[verifier::reject_recursive_types(R)]
#[derive(Debug, PartialEq)]
pub struct Node<S, R> {
    pub id: usize,
    pub kind: WidgetKind,
    pub style: S,
    pub children: Vec<Node<S, R>>,
    /// The computed border box, filled in by the layout pass.
    pub rect: R,
}

impl<S: Clone, R: Clone> Node<S, R> {
    /// `other` is a deep copy of this subtree: the same id, a clone of the
    /// kind, style and rectangle, and, child by child in the same order, a
    /// deep copy of each child.
    pub open spec fn copy_of(self, other: Node<S, R>) -> bool
        decreases self,
    {
        &&& other.id == self.id
        &&& cloned(self.kind, other.kind)
        &&& cloned(self.style, other.style)
        &&& cloned(self.rect, other.rect)
        &&& other.children@.len() == self.children@.len()
        &&& forall|j: int|
            0 <= j < self.children@.len() ==> (#[trigger] self.children@[j]).copy_of(
                other.children@[j],
            )
    }
}

impl<S: Clone, R: Clone> Clone for Node<S, R> {
    /// A deep copy of the whole subtree, children in the same order.
    fn clone(&self) -> (c: Self)
        ensures
            self.copy_of(c),
        decreases self,
    {
        let mut children: Vec<Node<S, R>> = Vec::new();
        let n = self.children.len();
        let mut i: usize = 0;
        while i < n
            invariant
                i <= n,
                n == self.children@.len(),
                children@.len() == i,
                forall|j: int| 0 <= j < i ==> (#[trigger] self.children@[j]).copy_of(children@[j]),
            decreases n - i,
        {
            children.push(self.children[i].clone());
            i = i + 1;
        }
        Node {
            id: self.id,
            kind: self.kind.clone(),
            style: self.style.clone(),
            children,
            rect: self.rect.clone(),
        }
    }
}

impl<L: Default + Copy> Node<Style<L>, Rect<L>> {
    /// A childless node of the given kind, id zero, with the default style and
    /// a rectangle whose fields are all the value of `L::default()` (zero for
    /// numbers) until layout fills it in.
    pub fn new(kind: WidgetKind) -> (n: Self)
        ensures
            n.id == 0,
            n.kind == kind,
            n.style.is_default_for(Direction::Row),
            n.children@.len() == 0,
            call_ensures(L::default, (), n.rect.x),
            n.rect.y == n.rect.x && n.rect.w == n.rect.x && n.rect.h == n.rect.x,
    {
        let zero = L::default();
        Node {
            id: 0,
            kind,
            style: Style::default(),
            children: Vec::new(),
            rect: Rect::new(zero, zero, zero, zero),
        }
    }

    /// An empty container laying out its children in the given direction.
    pub fn container(direction: Direction) -> (n: Self)
        ensures
            n.id == 0,
            n.kind == WidgetKind::Container,
            n.style.is_default_for(direction),
            n.children@.len() == 0,
            call_ensures(L::default, (), n.rect.x),
            n.rect.y == n.rect.x && n.rect.w == n.rect.x && n.rect.h == n.rect.x,
    {
        let mut n = Self::new(WidgetKind::Container);
        n.style.direction = direction;
        n
    }

    /// An empty container that lays its children out left to right.
    pub fn row() -> (n: Self)
        ensures
            n.id == 0,
            n.kind == WidgetKind::Container,
            n.style.is_default_for(Direction::Row),
            n.children@.len() == 0,
            call_ensures(L::default, (), n.rect.x),
            n.rect.y == n.rect.x && n.rect.w == n.rect.x && n.rect.h == n.rect.x,
    {
        Self::container(Direction::Row)
    }

    /// An empty container that lays its children out top to bottom.
    pub fn column() -> (n: Self)
        ensures
            n.id == 0,
            n.kind == WidgetKind::Container,
            n.style.is_default_for(Direction::Column),
            n.children@.len() == 0,
            call_ensures(L::default, (), n.rect.x),
            n.rect.y == n.rect.x && n.rect.w == n.rect.x && n.rect.h == n.rect.x,
    {
        Self::container(Direction::Column)
    }

    /// A text leaf showing `s`.
    pub fn text(s: &str) -> (n: Self)
        ensures
            n.id == 0,
            n.kind matches WidgetKind::Text(t) && t@ == s@,
            n.style.is_default_for(Direction::Row),
            n.children@.len() == 0,
            call_ensures(L::default, (), n.rect.x),
            n.rect.y == n.rect.x && n.rect.w == n.rect.x && n.rect.h == n.rect.x,
    {
        Self::new(WidgetKind::Text(s.to_owned()))
    }

    /// A button leaf labelled `s`.
    pub fn button(s: &str) -> (n: Self)
        ensures
            n.id == 0,
            n.kind matches WidgetKind::Button(t) && t@ == s@,
            n.style.is_default_for(Direction::Row),
            n.children@.len() == 0,
            call_ensures(L::default, (), n.rect.x),
            n.rect.y == n.rect.x && n.rect.w == n.rect.x && n.rect.h == n.rect.x,
    {
        Self::new(WidgetKind::Button(s.to_owned()))
    }

    /// A plain box leaf.
    pub fn boxed() -> (n: Self)
        ensures
            n.id == 0,
            n.kind == WidgetKind::Box,
            n.style.is_default_for(Direction::Row),
            n.children@.len() == 0,
            call_ensures(L::default, (), n.rect.x),
            n.rect.y == n.rect.x && n.rect.w == n.rect.x && n.rect.h == n.rect.x,
    {
        Self::new(WidgetKind::Box)
    }

    /// An empty spacer leaf.
    pub fn spacer() -> (n: Self)
        ensures
            n.id == 0,
            n.kind == WidgetKind::Spacer,
            n.style.is_default_for(Direction::Row),
            n.children@.len() == 0,
            call_ensures(L::default, (), n.rect.x),
            n.rect.y == n.rect.x && n.rect.w == n.rect.x && n.rect.h == n.rect.x,
    {
        Self::new(WidgetKind::Spacer)
    }
}

impl<S, R> Node<S, R> {
    /// The node keeps its id, kind, children and rectangle, and only its
    /// style may differ.
    pub open spec fn same_but_style(self, other: Node<S, R>) -> bool {
        &&& self.id == other.id
        &&& self.kind == other.kind
        &&& self.children@ == other.children@
        &&& self.rect == other.rect
    }
}

// Builder style setters. These consume and return the node so trees can be
// written declaratively.
impl<L: Copy, R> Node<Style<L>, R> {
    pub fn with_style(self, style: Style<L>) -> (n: Self)
        ensures
            n.same_but_style(self),
            n.style == style,
    {
        let mut n = self;
        n.style = style;
        n
    }

    pub fn width(self, v: L) -> (n: Self)
        ensures
            n.same_but_style(self),
            n.style == (Style { width: Dimension::Points(v), ..self.style }),
    {
        let mut n = self;
        n.style.width = Dimension::Points(v);
        n
    }

    pub fn height(self, v: L) -> (n: Self)
        ensures
            n.same_but_style(self),
            n.style == (Style { height: Dimension::Points(v), ..self.style }),
    {
        let mut n = self;
        n.style.height = Dimension::Points(v);
        n
    }

    pub fn grow(self, v: L) -> (n: Self)
        ensures
            n.same_but_style(self),
            n.style == (Style { flex_grow: v, ..self.style }),
    {
        let mut n = self;
        n.style.flex_grow = v;
        n
    }

    pub fn shrink(self, v: L) -> (n: Self)
        ensures
            n.same_but_style(self),
            n.style == (Style { flex_shrink: v, ..self.style }),
    {
        let mut n = self;
        n.style.flex_shrink = v;
        n
    }

    pub fn gap(self, v: L) -> (n: Self)
        ensures
            n.same_but_style(self),
            n.style == (Style { gap: v, ..self.style }),
    {
        let mut n = self;
        n.style.gap = v;
        n
    }

    pub fn justify(self, v: Justify) -> (n: Self)
        ensures
            n.same_but_style(self),
            n.style == (Style { justify: v, ..self.style }),
    {
        let mut n = self;
        n.style.justify = v;
        n
    }

    /// Enable wrapping so children break onto new lines when the line is full.
    pub fn wrap(self) -> (n: Self)
        ensures
            n.same_but_style(self),
            n.style == (Style { flex_wrap: FlexWrap::Wrap, ..self.style }),
    {
        let mut n = self;
        n.style.flex_wrap = FlexWrap::Wrap;
        n
    }

    pub fn align(self, v: Align) -> (n: Self)
        ensures
            n.same_but_style(self),
            n.style == (Style { align: v, ..self.style }),
    {
        let mut n = self;
        n.style.align = v;
        n
    }

    pub fn padding(self, v: EdgeInsets<L>) -> (n: Self)
        ensures
            n.same_but_style(self),
            n.style == (Style { padding: v, ..self.style }),
    {
        let mut n = self;
        n.style.padding = v;
        n
    }

    pub fn border(self, v: EdgeInsets<L>) -> (n: Self)
        ensures
            n.same_but_style(self),
            n.style == (Style { border: v, ..self.style }),
    {
        let mut n = self;
        n.style.border = v;
        n
    }

    pub fn margin(self, v: EdgeInsets<L>) -> (n: Self)
        ensures
            n.same_but_style(self),
            n.style == (Style { margin: v, ..self.style }),
    {
        let mut n = self;
        n.style.margin = v;
        n
    }
}

/// The sequence `start, start + 1, ..., start + len - 1`.
pub open spec fn id_range(start: int, len: nat) -> Seq<usize> {
    Seq::new(len, |i: int| (start + i) as usize)
}

/// Number of nodes in a forest.
pub open spec fn forest_size<S, R>(s: Seq<Node<S, R>>) -> nat
    decreases s,
{
    if s.len() == 0 {
        0
    } else {
        forest_size(s.drop_last()) + s.last().size()
    }
}

/// Ids of a forest, each tree in preorder, trees left to right.
pub open spec fn forest_ids<S, R>(s: Seq<Node<S, R>>) -> Seq<usize>
    decreases s,
{
    if s.len() == 0 {
        Seq::empty()
    } else {
        forest_ids(s.drop_last()) + s.last().ids()
    }
}

/// Two forests have the same trees up to their ids.
pub open spec fn forest_same_shape<S, R>(a: Seq<Node<S, R>>, b: Seq<Node<S, R>>) -> bool
    decreases a,
{
    if a.len() == 0 {
        b.len() == 0
    } else {
        &&& b.len() == a.len()
        &&& forest_same_shape(a.drop_last(), b.drop_last())
        &&& a.last().same_shape(b.last())
    }
}

impl<S, R> Node<S, R> {
    /// Number of nodes in this subtree, the node itself included.
    pub open spec fn size(self) -> nat
        decreases self,
    {
        1 + forest_size(self.children@)
    }

    /// Ids of this subtree in preorder: the node, then each child subtree.
    pub open spec fn ids(self) -> Seq<usize>
        decreases self,
    {
        seq![self.id] + forest_ids(self.children@)
    }

    /// The two subtrees agree everywhere except possibly in their ids.
    pub open spec fn same_shape(self, other: Node<S, R>) -> bool
        decreases self,
    {
        &&& self.kind == other.kind
        &&& self.style == other.style
        &&& self.rect == other.rect
        &&& forest_same_shape(self.children@, other.children@)
    }

    /// Whether this node is a layout container.
    pub fn is_container(&self) -> (b: bool)
        ensures
            b == (self.kind is Container),
    {
        match self.kind {
            WidgetKind::Container => true,
            _ => false,
        }
    }

    /// Appends a child and returns the node.
    pub fn child(self, c: Node<S, R>) -> (n: Node<S, R>)
        ensures
            n.id == self.id,
            n.kind == self.kind,
            n.style == self.style,
            n.rect == self.rect,
            n.children@ == self.children@.push(c),
    {
        let mut n = self;
        n.children.push(c);
        n
    }

    /// Replaces the children and returns the node.
    pub fn children(self, cs: Vec<Node<S, R>>) -> (n: Node<S, R>)
        ensures
            n.id == self.id,
            n.kind == self.kind,
            n.style == self.style,
            n.rect == self.rect,
            n.children@ == cs@,
    {
        let mut n = self;
        n.children = cs;
        n
    }
}


/// Trees of the same shape have the same number of nodes.
pub proof fn lemma_same_shape_size<S, R>(a: Node<S, R>, b: Node<S, R>)
    requires
        a.same_shape(b),
    ensures
        a.size() == b.size(),
    decreases a,
{
    lemma_forest_same_shape_size(a.children@, b.children@);
}

/// Forests of the same shape have the same number of nodes.
pub proof fn lemma_forest_same_shape_size<S, R>(a: Seq<Node<S, R>>, b: Seq<Node<S, R>>)
    requires
        forest_same_shape(a, b),
    ensures
        forest_size(a) == forest_size(b),
    decreases a,
{
    if a.len() > 0 {
        lemma_forest_same_shape_size(a.drop_last(), b.drop_last());
        lemma_same_shape_size(a.last(), b.last());
    }
}

/// Extending a prefix of a forest by its next tree.
proof fn lemma_forest_take_step<S, R>(s: Seq<Node<S, R>>, i: int)
    requires
        0 <= i < s.len(),
    ensures
        forest_size(s.take(i + 1)) == forest_size(s.take(i)) + s[i].size(),
        forest_ids(s.take(i + 1)) == forest_ids(s.take(i)) + s[i].ids(),
{
    assert(s.take(i + 1).drop_last() =~= s.take(i));
    assert(s.take(i + 1).last() == s[i]);
}

/// A prefix of a forest has no more nodes than the forest.
proof fn lemma_forest_take_size<S, R>(s: Seq<Node<S, R>>, i: int)
    requires
        0 <= i <= s.len(),
    ensures
        forest_size(s.take(i)) <= forest_size(s),
    decreases s.len() - i,
{
    if i < s.len() {
        lemma_forest_take_step(s, i);
        lemma_forest_take_size(s, i + 1);
    } else {
        assert(s.take(i) =~= s);
    }
}

/// Forests that agree on a prefix and on the remaining trees up to shape.
proof fn lemma_forest_same_shape_step<S, R>(a: Seq<Node<S, R>>, b: Seq<Node<S, R>>, i: int)
    requires
        0 <= i < a.len(),
        a.len() == b.len(),
        forest_same_shape(a.take(i), b.take(i)),
        a[i].same_shape(b[i]),
    ensures
        forest_same_shape(a.take(i + 1), b.take(i + 1)),
{
    assert(a.take(i + 1).drop_last() =~= a.take(i));
    assert(b.take(i + 1).drop_last() =~= b.take(i));
}

/// Each tree lists as many ids as it has nodes.
proof fn lemma_ids_len<S, R>(n: Node<S, R>)
    ensures
        n.ids().len() == n.size(),
    decreases n,
{
    lemma_forest_ids_len(n.children@);
}

/// Each forest lists as many ids as it has nodes.
proof fn lemma_forest_ids_len<S, R>(s: Seq<Node<S, R>>)
    ensures
        forest_ids(s).len() == forest_size(s),
    decreases s,
{
    if s.len() > 0 {
        lemma_forest_ids_len(s.drop_last());
        lemma_ids_len(s.last());
    }
}

/// Where the ids of the `j`th tree of a forest begin in the forest's ids.
pub open spec fn block_start<S, R>(s: Seq<Node<S, R>>, j: int) -> int {
    forest_size(s.take(j)) as int
}

/// Within the ids of a forest, each tree's ids form one contiguous block that
/// starts after the nodes of the trees before it.
proof fn lemma_forest_ids_block<S, R>(s: Seq<Node<S, R>>, j: int)
    requires
        0 <= j < s.len(),
    ensures
        block_start(s, j) + s[j].size() <= forest_size(s),
        forest_ids(s).subrange(block_start(s, j), block_start(s, j) + s[j].size()) == s[j].ids(),
    decreases s.len(),
{
    lemma_forest_ids_len(s.drop_last());
    lemma_ids_len(s.last());
    if j == s.len() - 1 {
        assert(s.take(j) =~= s.drop_last());
        assert(forest_ids(s).subrange(block_start(s, j), block_start(s, j) + s[j].size())
            =~= s[j].ids());
    } else {
        let t = s.drop_last();
        assert(t.take(j) =~= s.take(j));
        assert(t[j] == s[j]);
        lemma_forest_ids_block(t, j);
        assert(forest_ids(s).subrange(block_start(s, j), block_start(s, j) + s[j].size())
            =~= forest_ids(t).subrange(block_start(t, j), block_start(t, j) + t[j].size()));
    }
}

/// The preorder id list of a tree starts with the tree's root, and after it
/// come the children's id lists, each as one contiguous block in child order.
pub proof fn lemma_ids_start_at_root<S, R>(n: Node<S, R>)
    ensures
        n.ids().len() == n.size(),
        n.ids()[0] == n.id,
        forall|j: int|
            0 <= j < n.children@.len() ==> n.ids().subrange(
                1 + block_start(n.children@, j),
                1 + block_start(n.children@, j) + (#[trigger] n.children@[j]).size(),
            ) == n.children@[j].ids(),
{
    lemma_ids_len(n);
    lemma_forest_ids_len(n.children@);
    assert forall|j: int| 0 <= j < n.children@.len() implies n.ids().subrange(
        1 + block_start(n.children@, j),
        1 + block_start(n.children@, j) + (#[trigger] n.children@[j]).size(),
    ) == n.children@[j].ids() by {
        lemma_forest_ids_block(n.children@, j);
        assert(n.ids().subrange(
            1 + block_start(n.children@, j),
            1 + block_start(n.children@, j) + n.children@[j].size(),
        ) =~= forest_ids(n.children@).subrange(
            block_start(n.children@, j),
            block_start(n.children@, j) + n.children@[j].size(),
        ));
    }
}

/// Numbering in preorder from `start` puts each parent before its
/// descendants: the root gets `start`, every other node of the tree gets a
/// larger id, and each child's subtree is itself numbered in preorder from the
/// first id after the subtrees of the children before it.
pub proof fn lemma_numbering_parent_first<S, R>(n: Node<S, R>, start: int)
    requires
        0 <= start,
        start + n.size() <= usize::MAX + 1,
        n.ids() == id_range(start, n.size()),
    ensures
        n.id == start,
        forall|i: int| 0 < i < n.ids().len() ==> (#[trigger] n.ids()[i]) > n.id,
        forall|j: int|
            0 <= j < n.children@.len() ==> (#[trigger] n.children@[j]).ids() == id_range(
                start + 1 + block_start(n.children@, j),
                n.children@[j].size(),
            ),
{
    lemma_ids_start_at_root(n);
    assert forall|j: int| 0 <= j < n.children@.len() implies (#[trigger] n.children@[j]).ids()
        == id_range(start + 1 + block_start(n.children@, j), n.children@[j].size()) by {
        lemma_forest_ids_block(n.children@, j);
        let off = 1 + block_start(n.children@, j);
        assert(n.ids().subrange(off, off + n.children@[j].size()) =~= id_range(
            start + off,
            n.children@[j].size(),
        ));
    }
}

/// Preorder numbering from zero gives every node its own id, each below the
/// number of nodes: this is what `assign_ids` leaves in a tree.
pub proof fn lemma_assigned_ids_unique<S, R>(root: Node<S, R>)
    requires
        root.size() <= usize::MAX,
        root.ids() == id_range(0, root.size()),
    ensures
        root.ids().len() == root.size(),
        forall|i: int| 0 <= i < root.ids().len() ==> (#[trigger] root.ids()[i]) < root.size(),
        forall|i: int, j: int|
            0 <= i < j < root.ids().len() ==> #[trigger] root.ids()[i] != #[trigger] root.ids()[j],
{
}

/// Numbering is stable: a tree of the same shape as another, whatever ids
/// either holds, is numbered with the same ids, so running `assign_ids` again
/// on a numbered tree gives every node the id it already had.
pub proof fn lemma_numbering_stable<S, R>(a: Node<S, R>, b: Node<S, R>)
    requires
        b.same_shape(a),
    ensures
        id_range(0, b.size()) == id_range(0, a.size()),
{
    lemma_same_shape_size(b, a);
}

/// Assigns a unique, stable id to every node in preorder, starting at zero.
/// Ids are used by hit testing and the renderer to refer to nodes.
pub fn assign_ids<S, R>(root: &mut Node<S, R>)
    requires
        old(root).size() <= usize::MAX,
    ensures
        final(root).same_shape(*old(root)),
        final(root).ids() == id_range(0, old(root).size()),
        final(root).id == 0,
{
    let mut next: usize = 0;
    assign_ids_inner(root, &mut next, Ghost(root.size()));
    proof {
        lemma_ids_start_at_root(*root);
    }
}

fn assign_ids_inner<S, R>(node: &mut Node<S, R>, next: &mut usize, Ghost(bound): Ghost<nat>)
    requires
        old(node).size() <= bound,
        *old(next) + old(node).size() <= usize::MAX,
    ensures
        final(node).same_shape(*old(node)),
        final(node).ids() == id_range(*old(next) as int, old(node).size()),
        *final(next) == *old(next) + old(node).size(),
    decreases bound,
{
    let ghost start: int = *next as int;
    let ghost old_children = node.children@;
    let ghost old_node = *node;
    node.id = *next;
    *next = *next + 1;
    let n = node.children.len();
    let mut i: usize = 0;
    proof {
        assert(old_children.take(0) =~= Seq::<Node<S, R>>::empty());
        assert(node.children@.take(0) =~= Seq::<Node<S, R>>::empty());
        assert(forest_ids(node.children@.take(0)) =~= id_range(start + 1, 0));
        lemma_forest_take_size(old_children, n as int);
        assert(old_children.take(n as int) =~= old_children);
    }
    while i < n
        invariant
            0 <= i <= n,
            n == old_children.len(),
            node.children@.len() == n,
            node.id == start,
            node.kind == old_node.kind,
            old_node.size() <= bound,
            node.style == old_node.style,
            node.rect == old_node.rect,
            old_node.children@ == old_children,
            start + 1 + forest_size(old_children) <= usize::MAX,
            *next == start + 1 + forest_size(old_children.take(i as int)),
            forest_ids(node.children@.take(i as int)) == id_range(start + 1, forest_size(old_children.take(i as int))),
            forest_same_shape(node.children@.take(i as int), old_children.take(i as int)),
            forall|j: int| i <= j < n ==> node.children@[j] == old_children[j],
        decreases n - i,
    {
        proof {
            lemma_forest_take_step(old_children, i as int);
            lemma_forest_take_size(old_children, i as int + 1);
        }
        let ghost before = node.children@;
        assert(node.children@[i as int].size() < old_node.size());
        assign_ids_inner(&mut node.children[i], next, Ghost((bound - 1) as nat));
        proof {
            let now = node.children@;
            lemma_forest_take_step(now, i as int);
            lemma_same_shape_size(now[i as int], old_children[i as int]);
            assert(now.take(i as int) =~= before.take(i as int));
            assert(id_range(start + 1, forest_size(old_children.take(i as int))) + now[i as int].ids()
                =~= id_range(start + 1, forest_size(old_children.take(i as int + 1))));
            lemma_forest_same_shape_step(now, old_children, i as int);
        }
        i = i + 1;
    }
    proof {
        assert(node.children@.take(n as int) =~= node.children@);
        assert(old_children.take(n as int) =~= old_children);
        assert(node.ids() =~= id_range(start, old(node).size()));
    }
}

} // verus!

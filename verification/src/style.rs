//! Style resolution: directions, alignment, sizing and the box model.
//!
//! Lengths are of a type parameter `L`. What is resolved here is which of a
//! node's lengths applies on which axis: the four physical edges and the two
//! physical dimensions are projected onto the main and cross axes of a
//! direction, which is what lets one layout algorithm serve rows and columns.

use vstd::prelude::*;

verus! {

/// The main axis direction of a container.
#[derive(Debug, Clone, Copy, PartialEq, Eq, Structural)]
pub enum Direction {
    /// Children are placed left to right; the main axis is horizontal.
    Row,
    /// Children are placed top to bottom; the main axis is vertical.
    Column,
}

/// Distribution of free space along the main axis.
#[derive(Debug, Clone, Copy, PartialEq, Eq, Structural)]
pub enum Justify {
    Start,
    Center,
    End,
    SpaceBetween,
}

/// Whether children wrap onto new lines when they exceed the main axis.
#[derive(Debug, Clone, Copy, PartialEq, Eq, Structural)]
pub enum FlexWrap {
    /// One line, overflowing if the children cannot shrink to fit.
    NoWrap,
    /// Children break onto new lines so each line's main sizes fit.
    Wrap,
}

impl Default for FlexWrap {
    /// A container keeps all of its children on one line unless asked to wrap.
    fn default() -> (w: FlexWrap)
        ensures
            w == FlexWrap::NoWrap,
    {
        FlexWrap::NoWrap
    }
}

/// Alignment of a child along the cross axis.
#[derive(Debug, Clone, Copy, PartialEq, Eq, Structural)]
pub enum Align {
    Start,
    Center,
    End,
    /// Grow to fill the cross axis of the parent content box, unless the child
    /// has a fixed cross size.
    Stretch,
}


/// A single length: either automatic (content derived) or a fixed length.
/// A fixed length sets the border box size of the node.
#[derive(Debug, Clone, Copy, PartialEq)]
pub enum Dimension<L> {
    Auto,
    Points(L),
}

impl<L: Copy> Dimension<L> {
    #[verifier::allow_in_spec]
    pub fn is_fixed(&self) -> bool
        returns
            self is Points,
    {
        match self {
            Dimension::Points(_) => true,
            Dimension::Auto => false,
        }
    }

    #[verifier::allow_in_spec]
    pub fn resolve_or(&self, fallback: L) -> L
        returns
            match self {
                Dimension::Auto => fallback,
                Dimension::Points(v) => *v,
            },
    {
        match self {
            Dimension::Auto => fallback,
            Dimension::Points(v) => *v,
        }
    }
}

/// Insets on the four edges of a box, used for margin, border and padding.
#[derive(Debug, Clone, Copy, PartialEq)]
pub struct EdgeInsets<L> {
    pub top: L,
    pub right: L,
    pub bottom: L,
    pub left: L,
}

impl<L: Copy> EdgeInsets<L> {
    /// The same inset on every edge.
    pub fn all(v: L) -> (e: EdgeInsets<L>)
        ensures
            e.top == v && e.right == v && e.bottom == v && e.left == v,
    {
        EdgeInsets { top: v, right: v, bottom: v, left: v }
    }

    /// One inset on the top and bottom edges, another on the left and right.
    pub fn symmetric(vertical: L, horizontal: L) -> (e: EdgeInsets<L>)
        ensures
            e.top == vertical && e.bottom == vertical,
            e.left == horizontal && e.right == horizontal,
    {
        EdgeInsets { top: vertical, right: horizontal, bottom: vertical, left: horizontal }
    }

    /// The inset at the start of the main axis for the given direction.
    #[verifier::allow_in_spec]
    pub fn main_start(&self, dir: Direction) -> L
        returns
            match dir {
                Direction::Row => self.left,
                Direction::Column => self.top,
            },
    {
        match dir {
            Direction::Row => self.left,
            Direction::Column => self.top,
        }
    }

    /// The inset at the end of the main axis for the given direction.
    #[verifier::allow_in_spec]
    pub fn main_end(&self, dir: Direction) -> L
        returns
            match dir {
                Direction::Row => self.right,
                Direction::Column => self.bottom,
            },
    {
        match dir {
            Direction::Row => self.right,
            Direction::Column => self.bottom,
        }
    }

    /// The inset at the start of the cross axis for the given direction.
    #[verifier::allow_in_spec]
    pub fn cross_start(&self, dir: Direction) -> L
        returns
            match dir {
                Direction::Row => self.top,
                Direction::Column => self.left,
            },
    {
        match dir {
            Direction::Row => self.top,
            Direction::Column => self.left,
        }
    }

    /// The inset at the end of the cross axis for the given direction.
    #[verifier::allow_in_spec]
    pub fn cross_end(&self, dir: Direction) -> L
        returns
            match dir {
                Direction::Row => self.bottom,
                Direction::Column => self.right,
            },
    {
        match dir {
            Direction::Row => self.bottom,
            Direction::Column => self.right,
        }
    }
}

/// The resolved style of a node. Every field has a default so a node can be
/// built by overriding only what matters.
#[derive(Debug, Clone, Copy, PartialEq)]
pub struct Style<L> {
    pub direction: Direction,
    pub flex_wrap: FlexWrap,
    pub justify: Justify,
    pub align: Align,
    pub gap: L,
    pub width: Dimension<L>,
    pub height: Dimension<L>,
    /// Lower bound on the resolved width. `Auto` means no minimum.
    pub min_width: Dimension<L>,
    /// Upper bound on the resolved width. `Auto` means no maximum.
    pub max_width: Dimension<L>,
    /// Lower bound on the resolved height. `Auto` means no minimum.
    pub min_height: Dimension<L>,
    /// Upper bound on the resolved height. `Auto` means no maximum.
    pub max_height: Dimension<L>,
    pub flex_grow: L,
    pub flex_shrink: L,
    pub margin: EdgeInsets<L>,
    pub border: EdgeInsets<L>,
    pub padding: EdgeInsets<L>,
}

impl<L: Default + Copy> Style<L> {
    /// The default style with the given direction: no wrap, start justified,
    /// stretch aligned, every dimension and bound automatic, and the value of
    /// `L::default()` (zero for numbers) for the gap, both flex factors and
    /// every inset of the margin, border and padding.
    pub open spec fn is_default_for(self, dir: Direction) -> bool {
        &&& self.direction == dir
        &&& self.flex_wrap == FlexWrap::NoWrap
        &&& self.justify == Justify::Start
        &&& self.align == Align::Stretch
        &&& self.width is Auto
        &&& self.height is Auto
        &&& self.min_width is Auto
        &&& self.max_width is Auto
        &&& self.min_height is Auto
        &&& self.max_height is Auto
        &&& call_ensures(L::default, (), self.gap)
        &&& self.flex_grow == self.gap
        &&& self.flex_shrink == self.gap
        &&& self.margin == (EdgeInsets::<L> { top: self.gap, right: self.gap, bottom: self.gap, left: self.gap })
        &&& self.border == self.margin
        &&& self.padding == self.margin
    }
}

impl<L: Default + Copy> Default for Style<L> {
    /// A row that does not wrap, starts its children, stretches them across,
    /// has every dimension automatic, and the zero length of `L` (the value of
    /// `L::default()`) for its gap, flex factors and every inset.
    fn default() -> (s: Style<L>)
        ensures
            s.is_default_for(Direction::Row),
    {
        let zero = L::default();
        let insets = EdgeInsets { top: zero, right: zero, bottom: zero, left: zero };
        Style {
            direction: Direction::Row,
            flex_wrap: FlexWrap::NoWrap,
            justify: Justify::Start,
            align: Align::Stretch,
            gap: zero,
            width: Dimension::Auto,
            height: Dimension::Auto,
            min_width: Dimension::Auto,
            max_width: Dimension::Auto,
            min_height: Dimension::Auto,
            max_height: Dimension::Auto,
            flex_grow: zero,
            flex_shrink: zero,
            margin: insets,
            border: insets,
            padding: insets,
        }
    }
}

impl<L: Copy> Style<L> {
    /// The main axis fixed length for the given direction, if any.
    #[verifier::allow_in_spec]
    pub fn main_dim(&self, dir: Direction) -> Dimension<L>
        returns
            match dir {
                Direction::Row => self.width,
                Direction::Column => self.height,
            },
    {
        match dir {
            Direction::Row => self.width,
            Direction::Column => self.height,
        }
    }

    /// The cross axis fixed length for the given direction, if any.
    #[verifier::allow_in_spec]
    pub fn cross_dim(&self, dir: Direction) -> Dimension<L>
        returns
            match dir {
                Direction::Row => self.height,
                Direction::Column => self.width,
            },
    {
        match dir {
            Direction::Row => self.height,
            Direction::Column => self.width,
        }
    }

    /// The main axis minimum length for the given direction.
    #[verifier::allow_in_spec]
    pub fn min_main_dim(&self, dir: Direction) -> Dimension<L>
        returns
            match dir {
                Direction::Row => self.min_width,
                Direction::Column => self.min_height,
            },
    {
        match dir {
            Direction::Row => self.min_width,
            Direction::Column => self.min_height,
        }
    }

    /// The main axis maximum length for the given direction.
    #[verifier::allow_in_spec]
    pub fn max_main_dim(&self, dir: Direction) -> Dimension<L>
        returns
            match dir {
                Direction::Row => self.max_width,
                Direction::Column => self.max_height,
            },
    {
        match dir {
            Direction::Row => self.max_width,
            Direction::Column => self.max_height,
        }
    }

    /// The cross axis minimum length for the given direction.
    #[verifier::allow_in_spec]
    pub fn min_cross_dim(&self, dir: Direction) -> Dimension<L>
        returns
            match dir {
                Direction::Row => self.min_height,
                Direction::Column => self.min_width,
            },
    {
        match dir {
            Direction::Row => self.min_height,
            Direction::Column => self.min_width,
        }
    }

    /// The cross axis maximum length for the given direction.
    #[verifier::allow_in_spec]
    pub fn max_cross_dim(&self, dir: Direction) -> Dimension<L>
        returns
            match dir {
                Direction::Row => self.max_height,
                Direction::Column => self.max_width,
            },
    {
        match dir {
            Direction::Row => self.max_height,
            Direction::Column => self.max_width,
        }
    }
}

/// A default style fixes nothing: its width, height and all four bounds are
/// automatic, so sizes come from content; it is a row that does not wrap,
/// starts its children and stretches them across; and its gap, both flex
/// factors and every inset are the value of `L::default()` (zero for numbers).
pub proof fn lemma_default_style_is_automatic<L: Default + Copy>(s: Style<L>)
    requires
        call_ensures(Style::<L>::default, (), s),
    ensures
        s.width == Dimension::<L>::Auto,
        s.height == Dimension::<L>::Auto,
        s.min_width == Dimension::<L>::Auto,
        s.max_width == Dimension::<L>::Auto,
        s.min_height == Dimension::<L>::Auto,
        s.max_height == Dimension::<L>::Auto,
        s.direction == Direction::Row,
        s.flex_wrap == FlexWrap::NoWrap,
        s.justify == Justify::Start,
        s.align == Align::Stretch,
        call_ensures(L::default, (), s.gap),
        call_ensures(L::default, (), s.flex_grow),
        call_ensures(L::default, (), s.flex_shrink),
        call_ensures(L::default, (), s.margin.top) && call_ensures(L::default, (), s.margin.right)
            && call_ensures(L::default, (), s.margin.bottom) && call_ensures(L::default, (), s.margin.left),
        s.border == s.margin,
        s.padding == s.margin,
{
}

/// Every node a constructor builds starts from a default style in its
/// direction: no dimension or bound is fixed, so the node's size comes from its
/// content until a setter fixes it.
pub proof fn lemma_default_for_fixes_no_dimension<L: Default + Copy>(s: Style<L>, dir: Direction)
    requires
        s.is_default_for(dir),
    ensures
        s.direction == dir,
        !s.width.is_fixed() && !s.height.is_fixed(),
        !s.min_width.is_fixed() && !s.max_width.is_fixed(),
        !s.min_height.is_fixed() && !s.max_height.is_fixed(),
        s.main_dim(dir) == Dimension::<L>::Auto && s.cross_dim(dir) == Dimension::<L>::Auto,
{
}

/// A row and a column read the same four edges with the axes swapped: the main
/// axis of one is the cross axis of the other, start to start and end to end.
pub proof fn lemma_edges_swap_with_direction<L: Copy>(e: EdgeInsets<L>)
    ensures
        e.main_start(Direction::Row) == e.cross_start(Direction::Column),
        e.main_end(Direction::Row) == e.cross_end(Direction::Column),
        e.cross_start(Direction::Row) == e.main_start(Direction::Column),
        e.cross_end(Direction::Row) == e.main_end(Direction::Column),
{
}

/// In either direction the four projections read each physical edge exactly
/// once: the two main edges and the two cross edges are the left and right
/// edges and the top and bottom edges, in some assignment of axes.
pub proof fn lemma_edges_partition<L: Copy>(e: EdgeInsets<L>, dir: Direction)
    ensures
        (e.main_start(dir) == e.left && e.main_end(dir) == e.right && e.cross_start(dir) == e.top
            && e.cross_end(dir) == e.bottom) || (e.main_start(dir) == e.top && e.main_end(dir)
            == e.bottom && e.cross_start(dir) == e.left && e.cross_end(dir) == e.right),
{
}

/// A row and a column read the same dimensions and bounds with the axes
/// swapped.
pub proof fn lemma_dims_swap_with_direction<L: Copy>(s: Style<L>)
    ensures
        s.main_dim(Direction::Row) == s.cross_dim(Direction::Column),
        s.cross_dim(Direction::Row) == s.main_dim(Direction::Column),
        s.min_main_dim(Direction::Row) == s.min_cross_dim(Direction::Column),
        s.max_main_dim(Direction::Row) == s.max_cross_dim(Direction::Column),
        s.min_cross_dim(Direction::Row) == s.min_main_dim(Direction::Column),
        s.max_cross_dim(Direction::Row) == s.max_main_dim(Direction::Column),
{
}

} // verus!

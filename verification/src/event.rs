//! Hit testing.
//!
//! Children are painted after their parent and later siblings after earlier
//! ones, so the visually topmost node under a point is the deepest, last
//! matching node. The geometric test of whether a border box contains the
//! point is made by the embedding, which hands the search a `Probe` tree: the
//! widget tree's ids and shape, each node marked with the outcome of that test.

use vstd::prelude::*;

verus! {

/// A widget tree reduced to what the hit search reads: each node's id, its
/// children, and whether its border box contains the probe point.
#[derive(Debug, PartialEq)]
pub struct Probe {
    pub id: usize,
    /// Whether the node's border box contains the probe point.
    pub inside: bool,
    pub children: Vec<Probe>,
}

/// The deepest hit among a list of siblings, the last sibling searched first.
pub open spec fn forest_hit(s: Seq<Probe>) -> Option<usize>
    decreases s,
{
    if s.len() == 0 {
        None
    } else {
        match s.last().hit() {
            Some(h) => Some(h),
            None => forest_hit(s.drop_last()),
        }
    }
}

/// The path into the last sibling that contains the point, if any.
pub open spec fn forest_path(s: Seq<Probe>) -> Seq<usize>
    decreases s,
{
    if s.len() == 0 {
        Seq::empty()
    } else if s.last().inside {
        s.last().path()
    } else {
        forest_path(s.drop_last())
    }
}

impl Probe {
    /// The id of the deepest node containing the point, later siblings first.
    pub open spec fn hit(self) -> Option<usize>
        decreases self,
    {
        if !self.inside {
            None
        } else {
            match forest_hit(self.children@) {
                Some(h) => Some(h),
                None => Some(self.id),
            }
        }
    }

    /// The ids from this node down to the deepest node containing the point.
    pub open spec fn path(self) -> Seq<usize>
        decreases self,
    {
        if !self.inside {
            Seq::empty()
        } else {
            seq![self.id] + forest_path(self.children@)
        }
    }
}

/// Searching a prefix of the siblings when the later ones are all missed.
proof fn lemma_forest_take_miss(s: Seq<Probe>, i: int)
    requires
        0 <= i < s.len(),
        s[i].hit() is None,
        !s[i].inside,
    ensures
        forest_hit(s.take(i + 1)) == forest_hit(s.take(i)),
        forest_path(s.take(i + 1)) == forest_path(s.take(i)),
{
    assert(s.take(i + 1).drop_last() =~= s.take(i));
    assert(s.take(i + 1).last() == s[i]);
}

/// Searching a prefix of the siblings that ends in a hit.
proof fn lemma_forest_take_hit(s: Seq<Probe>, i: int)
    requires
        0 <= i < s.len(),
    ensures
        s[i].hit() is Some ==> forest_hit(s.take(i + 1)) == s[i].hit(),
        s[i].inside ==> forest_path(s.take(i + 1)) == s[i].path(),
{
    assert(s.take(i + 1).last() == s[i]);
}

/// A node is hit exactly when it contains the point.
proof fn lemma_hit_iff_inside(p: Probe)
    ensures
        p.hit() is Some <==> p.inside,
{
}

/// The path that `hit_path` returns and the id that `hit_test` returns agree:
/// the path is empty exactly when nothing is hit, and otherwise it starts at
/// the root and ends at the hit node.
pub proof fn lemma_path_ends_at_hit(p: Probe)
    ensures
        p.path().len() == 0 <==> p.hit() is None,
        p.path().len() > 0 ==> p.path()[0] == p.id,
        p.path().len() > 0 ==> p.path().last() == p.hit().unwrap(),
    decreases p,
{
    lemma_forest_path_ends_at_hit(p.children@);
}

/// Over a list of siblings, the path and the hit agree as in `lemma_path_ends_at_hit`.
pub proof fn lemma_forest_path_ends_at_hit(s: Seq<Probe>)
    ensures
        forest_path(s).len() == 0 <==> forest_hit(s) is None,
        forest_path(s).len() > 0 ==> forest_path(s).last() == forest_hit(s).unwrap(),
    decreases s,
{
    if s.len() > 0 {
        lemma_path_ends_at_hit(s.last());
        lemma_forest_path_ends_at_hit(s.drop_last());
    }
}

/// Among siblings, the last one that contains the point decides both the hit
/// and the path, whatever the siblings before it contain.
proof fn lemma_forest_last_containing(s: Seq<Probe>, k: int)
    requires
        0 <= k < s.len(),
        s[k].inside,
        forall|j: int| k < j < s.len() ==> !(#[trigger] s[j]).inside,
    ensures
        forest_hit(s) == s[k].hit(),
        forest_path(s) == s[k].path(),
    decreases s.len(),
{
    let last = s.last();
    lemma_hit_iff_inside(last);
    if k < s.len() - 1 {
        assert(!s[s.len() - 1].inside);
        let t = s.drop_last();
        assert forall|j: int| k < j < t.len() implies !(#[trigger] t[j]).inside by {
            assert(t[j] == s[j]);
        }
        lemma_forest_last_containing(t, k);
    }
}

/// Siblings none of which contains the point give no hit and no path.
proof fn lemma_forest_none_containing(s: Seq<Probe>)
    requires
        forall|j: int| 0 <= j < s.len() ==> !(#[trigger] s[j]).inside,
    ensures
        forest_hit(s) is None,
        forest_path(s).len() == 0,
    decreases s.len(),
{
    if s.len() > 0 {
        let last = s.last();
        assert(!s[s.len() - 1].inside);
        lemma_hit_iff_inside(last);
        let t = s.drop_last();
        assert forall|j: int| 0 <= j < t.len() implies !(#[trigger] t[j]).inside by {
            assert(t[j] == s[j]);
        }
        lemma_forest_none_containing(t);
    }
}

/// When a node contains the point and one of its children does too, hit
/// testing descends into the last such child: the hit is that child's hit (so
/// it lies in that child's subtree), and the path
/// is the node's id followed by that child's path, whatever the number of
/// children.
pub proof fn lemma_hit_descends_into_last_containing_child(p: Probe, k: int)
    requires
        p.inside,
        0 <= k < p.children@.len(),
        p.children@[k].inside,
        forall|j: int| k < j < p.children@.len() ==> !(#[trigger] p.children@[j]).inside,
    ensures
        p.hit() == p.children@[k].hit(),
        p.hit() is Some,
        p.path() == seq![p.id] + p.children@[k].path(),
        p.path().len() == 1 + p.children@[k].path().len(),
        p.path()[1] == p.children@[k].id,
{
    lemma_forest_last_containing(p.children@, k);
    lemma_hit_iff_inside(p.children@[k]);
}

/// When a node contains the point and none of its children does, the node
/// itself is hit and the path is just the node.
pub proof fn lemma_hit_stops_where_no_child_contains(p: Probe)
    requires
        p.inside,
        forall|j: int| 0 <= j < p.children@.len() ==> !(#[trigger] p.children@[j]).inside,
    ensures
        p.hit() == Some(p.id),
        p.path() == seq![p.id],
{
    lemma_forest_none_containing(p.children@);
    assert(p.path() =~= seq![p.id]);
}

/// A point outside a node hits nothing in its subtree, whatever its children
/// contain.
pub proof fn lemma_hit_outside_misses(p: Probe)
    requires
        !p.inside,
    ensures
        p.hit() is None,
        p.path().len() == 0,
{
}

/// Returns the id of the deepest node containing the point, or `None` when the
/// point falls outside the root. The last matching child in document order wins
/// among overlapping siblings, matching paint order.
pub fn hit_test(root: &Probe) -> (r: Option<usize>)
    ensures
        r == root.hit(),
    decreases root,
{
    if !root.inside {
        return None;
    }
    let n = root.children.len();
    let mut i = n;
    proof {
        assert(root.children@.take(n as int) =~= root.children@);
    }
    while i > 0
        invariant
            i <= n,
            n == root.children@.len(),
            root.inside,
            forest_hit(root.children@) == forest_hit(root.children@.take(i as int)),
        decreases i,
    {
        i = i - 1;
        let h = hit_test(&root.children[i]);
        proof {
            lemma_forest_take_hit(root.children@, i as int);
            lemma_hit_iff_inside(root.children@[i as int]);
        }
        if h.is_some() {
            return h;
        }
        proof {
            lemma_forest_take_miss(root.children@, i as int);
        }
    }
    proof {
        assert(root.children@.take(0) =~= Seq::<Probe>::empty());
    }
    Some(root.id)
}

/// Returns the full path of node ids from the root down to the deepest hit.
/// Useful for event bubbling. Empty when the point is outside the root.
pub fn hit_path(root: &Probe) -> (path: Vec<usize>)
    ensures
        path@ == root.path(),
{
    let mut path = Vec::new();
    collect_path(root, &mut path);
    proof {
        assert(path@ =~= root.path());
    }
    path
}

fn collect_path(node: &Probe, path: &mut Vec<usize>) -> (found: bool)
    ensures
        final(path)@ == old(path)@ + node.path(),
        found == node.inside,
    decreases node,
{
    if !node.inside {
        proof {
            assert(old(path)@ + node.path() =~= old(path)@);
        }
        return false;
    }
    path.push(node.id);
    let ghost pushed = path@;
    let n = node.children.len();
    let mut i = n;
    proof {
        assert(node.children@.take(n as int) =~= node.children@);
    }
    while i > 0
        invariant
            i <= n,
            n == node.children@.len(),
            node.inside,
            path@ == pushed,
            pushed == old(path)@.push(node.id),
            forest_path(node.children@) == forest_path(node.children@.take(i as int)),
        decreases i,
    {
        i = i - 1;
        proof {
            lemma_forest_take_hit(node.children@, i as int);
            lemma_hit_iff_inside(node.children@[i as int]);
        }
        if collect_path(&node.children[i], path) {
            proof {
                assert(path@ =~= old(path)@ + node.path());
            }
            return true;
        }
        proof {
            lemma_forest_take_miss(node.children@, i as int);
            assert(path@ =~= pushed);
        }
    }
    proof {
        assert(node.children@.take(0) =~= Seq::<Probe>::empty());
        assert(path@ =~= old(path)@ + node.path());
    }
    true
}

} // verus!

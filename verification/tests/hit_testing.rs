use loom::event::{hit_path, hit_test, Probe};

fn probe(id: usize, inside: bool, children: Vec<Probe>) -> Probe {
    Probe { id, inside, children }
}

// A root with two side by side children, probed inside the first child.
#[test]
fn point_inside_first_child_hits_it() {
    let root = probe(0, true, vec![probe(1, true, vec![]), probe(2, false, vec![])]);
    assert_eq!(hit_test(&root), Some(1));
    assert_eq!(hit_path(&root), vec![0, 1]);
}

#[test]
fn point_outside_root_hits_nothing() {
    let root = probe(0, false, vec![probe(1, true, vec![])]);
    assert_eq!(hit_test(&root), None);
    assert_eq!(hit_path(&root), Vec::<usize>::new());
}

#[test]
fn root_is_hit_when_no_child_contains_point() {
    let root = probe(0, true, vec![probe(1, false, vec![]), probe(2, false, vec![])]);
    assert_eq!(hit_test(&root), Some(0));
    assert_eq!(hit_path(&root), vec![0]);
}

#[test]
fn later_sibling_wins_among_overlapping_siblings() {
    let root = probe(0, true, vec![probe(1, true, vec![]), probe(2, true, vec![])]);
    assert_eq!(hit_test(&root), Some(2));
    assert_eq!(hit_path(&root), vec![0, 2]);
}

#[test]
fn deepest_node_wins_and_path_runs_root_to_leaf() {
    let root = probe(
        0,
        true,
        vec![probe(1, true, vec![probe(2, true, vec![])])],
    );
    assert_eq!(hit_test(&root), Some(2));
    assert_eq!(hit_path(&root), vec![0, 1, 2]);
}

#[test]
fn search_stops_at_the_last_containing_sibling() {
    // The later sibling contains the point but none of its children do; the
    // earlier sibling's deeper match is not considered.
    let root = probe(
        0,
        true,
        vec![
            probe(1, true, vec![probe(2, true, vec![])]),
            probe(3, true, vec![probe(4, false, vec![])]),
        ],
    );
    assert_eq!(hit_test(&root), Some(3));
    assert_eq!(hit_path(&root), vec![0, 3]);
}

use std::collections::HashSet;

use pudding::layout::manipulation::split_sibling;
use pudding::layout::{
    collect_bites, delete_node, find_bite, find_bite_at, find_bite_mut, find_node, find_node_mut,
    find_pane_at, first_bite, layout_rects, next_id, point_in_rect, resize_from_bite, rollback_split_bite,
    split_bite, swap_adjacent_bites, walk, DeleteNodeError, Rect,
};
use pudding::model::{default_template, Direction, Node, Template};

fn ratio(r: f64) -> i64 {
    (r * 1_000_000.0).round() as i64
}

fn bite(id: u64, name: &str, command: &str) -> Node {
    Node::Bite { id, name: name.to_string(), command: command.to_string() }
}

fn single_pane(id: u64) -> Node {
    bite(id, "pane", "sh")
}

fn spoon(id: u64, orientation: Direction, r: f64, first: Node, second: Node) -> Node {
    Node::Spoon { id, orientation, ratio: ratio(r), first: Box::new(first), second: Box::new(second) }
}

fn sample_tree() -> Node {
    spoon(
        10,
        Direction::Vertical,
        0.5,
        single_pane(1),
        spoon(20, Direction::Horizontal, 0.5, single_pane(2), single_pane(3)),
    )
}

fn bites_of(node: &Node) -> Vec<u64> {
    let mut out = Vec::new();
    collect_bites(node, &mut out);
    out
}

fn all_ids(node: &Node) -> Vec<u64> {
    let mut nodes = Vec::new();
    walk(node, &mut nodes);
    nodes.iter().map(|n| n.id()).collect()
}

fn rects_of(node: &Node, area: Rect) -> Vec<(u64, Rect)> {
    let mut out = Vec::new();
    layout_rects(node, area, &mut out);
    out
}

fn scenario_one() -> Node {
    let mut tree = default_template().root;
    assert!(split_bite(&mut tree, 1, Direction::Vertical, ratio(0.5), 2, "bash"));
    tree
}

#[test]
fn next_id_returns_max_id_plus_one() {
    let tree = sample_tree();
    assert_eq!(next_id(&tree), 21);
}

#[test]
fn delete_node_replaces_parent_with_sibling() {
    let mut tree = sample_tree();
    delete_node(&mut tree, 2).unwrap();

    assert!(find_node(&tree, 2).is_none());
    let mut pane_ids = Vec::new();
    collect_bites(&tree, &mut pane_ids);
    assert_eq!(pane_ids, vec![1, 3]);
}

#[test]
fn delete_node_rejects_last_pane() {
    let mut tree = single_pane(1);
    let err = delete_node(&mut tree, 1).unwrap_err();
    assert_eq!(err, DeleteNodeError::LastPane);
}

#[test]
fn delete_node_requires_existing_pane_id() {
    let mut tree = sample_tree();
    let err = delete_node(&mut tree, 999).unwrap_err();
    assert_eq!(err, DeleteNodeError::NotFound);
}

#[test]
fn find_pane_at_maps_cursor_to_expected_pane() {
    let tree = sample_tree();
    let area = Rect { x: 0, y: 0, width: 100, height: 40 };

    assert_eq!(find_pane_at(&tree, area, 10, 10), Some(1));
    assert_eq!(find_pane_at(&tree, area, 80, 5), Some(2));
    assert_eq!(find_pane_at(&tree, area, 80, 30), Some(3));
    assert_eq!(find_pane_at(&tree, area, 120, 5), None);
}

#[test]
fn layout_rects_returns_one_rect_per_pane() {
    let tree = sample_tree();
    let area = Rect { x: 0, y: 0, width: 90, height: 30 };
    let mut rects = Vec::new();
    layout_rects(&tree, area, &mut rects);

    let ids: Vec<u64> = rects.iter().map(|(id, _)| *id).collect();
    assert_eq!(ids, vec![1, 2, 3]);
}

#[test]
fn next_id_uses_max_even_when_ids_are_duplicated() {
    let node = Node::Spoon {
        id: 10,
        orientation: Direction::Vertical,
        ratio: ratio(0.5),
        first: Box::new(Node::Bite { id: 3, name: "a".to_string(), command: "sh".to_string() }),
        second: Box::new(Node::Spoon {
            id: 3,
            orientation: Direction::Horizontal,
            ratio: ratio(0.5),
            first: Box::new(Node::Bite { id: 9, name: "b".to_string(), command: "sh".to_string() }),
            second: Box::new(Node::Bite { id: 9, name: "c".to_string(), command: "sh".to_string() }),
        }),
    };
    assert_eq!(next_id(&node), 11);
}

#[test]
fn next_id_saturates_at_the_greatest_id() {
    assert_eq!(next_id(&single_pane(u64::MAX)), u64::MAX);
    assert_eq!(next_id(&single_pane(u64::MAX - 1)), u64::MAX);
    assert_eq!(next_id(&single_pane(0)), 1);
}

#[test]
fn default_tree_is_one_bite_running_bash() {
    let template = default_template();
    assert_eq!(template.name, "default");
    assert_eq!(template.root, bite(1, "main", "bash"));
    let named = Template::default_with_name("dev");
    assert_eq!(named.name, "dev");
    assert_eq!(named.root, bite(1, "main", "bash"));
    let custom = Template::single("dev", "zsh");
    assert_eq!(custom.root, bite(1, "main", "zsh"));
}

#[test]
fn split_of_default_tree_gives_the_expected_spoon() {
    let tree = scenario_one();
    assert_eq!(
        tree,
        spoon(3, Direction::Vertical, 0.5, bite(1, "main", "bash"), bite(2, "leaf-2", "bash"))
    );
}

#[test]
fn split_bite_clamps_the_ratio_and_names_the_new_bite() {
    let mut tree = sample_tree();
    assert!(split_bite(&mut tree, 3, Direction::Horizontal, ratio(0.0), 1234567890, "htop"));
    let expected = spoon(
        10,
        Direction::Vertical,
        0.5,
        single_pane(1),
        spoon(
            20,
            Direction::Horizontal,
            0.5,
            single_pane(2),
            spoon(
                1234567891,
                Direction::Horizontal,
                0.1,
                single_pane(3),
                bite(1234567890, "leaf-1234567890", "htop"),
            ),
        ),
    );
    assert_eq!(tree, expected);
}

#[test]
fn split_bite_does_nothing_without_the_target_or_without_an_id_left() {
    let mut tree = sample_tree();
    assert!(!split_bite(&mut tree, 999, Direction::Vertical, ratio(0.5), 21, "bash"));
    assert_eq!(tree, sample_tree());
    assert!(!split_bite(&mut tree, 10, Direction::Vertical, ratio(0.5), 21, "bash"));
    assert_eq!(tree, sample_tree());
    assert!(!split_bite(&mut tree, 1, Direction::Vertical, ratio(0.5), u64::MAX, "bash"));
    assert_eq!(tree, sample_tree());
}

#[test]
fn split_bite_takes_the_first_bite_of_a_repeated_id() {
    let mut tree = spoon(5, Direction::Vertical, 0.5, single_pane(1), single_pane(1));
    assert!(split_bite(&mut tree, 1, Direction::Vertical, ratio(0.5), 6, "sh"));
    assert_eq!(bites_of(&tree), vec![1, 6, 1]);
}

#[test]
fn split_with_next_id_keeps_ids_unique() {
    let mut tree = sample_tree();
    for target in [1u64, 2, 3, 21, 23] {
        let new_id = next_id(&tree);
        assert!(split_bite(&mut tree, target, Direction::Vertical, ratio(0.5), new_id, "bash"));
        let ids = all_ids(&tree);
        let set: HashSet<u64> = ids.iter().copied().collect();
        assert_eq!(set.len(), ids.len());
    }
}

#[test]
fn delete_in_split_default_tree_restores_the_single_bite() {
    let mut tree = scenario_one();
    assert_eq!(delete_node(&mut tree, 2), Ok(()));
    assert_eq!(tree, bite(1, "main", "bash"));
    assert_eq!(delete_node(&mut tree, 1), Err(DeleteNodeError::LastPane));
    assert_eq!(tree, bite(1, "main", "bash"));
}

#[test]
fn delete_node_keeps_the_id_of_the_promoted_subtree() {
    let mut tree = sample_tree();
    assert_eq!(delete_node(&mut tree, 1), Ok(()));
    assert_eq!(tree, spoon(20, Direction::Horizontal, 0.5, single_pane(2), single_pane(3)));
}

#[test]
fn delete_node_refuses_a_spoon_and_leaves_the_tree() {
    let mut tree = sample_tree();
    assert_eq!(delete_node(&mut tree, 20), Err(DeleteNodeError::NotFound));
    assert_eq!(tree, sample_tree());
    assert_eq!(delete_node(&mut tree, 10), Err(DeleteNodeError::NotFound));
    assert_eq!(tree, sample_tree());
}

#[test]
fn delete_node_twice_finds_nothing_the_second_time() {
    let mut tree = sample_tree();
    assert_eq!(delete_node(&mut tree, 3), Ok(()));
    let after = tree.clone();
    assert_eq!(delete_node(&mut tree, 3), Err(DeleteNodeError::NotFound));
    assert_eq!(tree, after);
    assert_eq!(delete_node(&mut tree, 2), Ok(()));
    assert_eq!(delete_node(&mut tree, 2), Err(DeleteNodeError::LastPane));
}

#[test]
fn rollback_undoes_a_split() {
    let mut tree = sample_tree();
    let new_id = next_id(&tree);
    assert!(split_bite(&mut tree, 2, Direction::Vertical, ratio(0.5), new_id, "bash"));
    assert_ne!(tree, sample_tree());
    assert!(rollback_split_bite(&mut tree, new_id));
    assert_eq!(tree, sample_tree());
    assert!(!rollback_split_bite(&mut tree, new_id));
    assert!(!rollback_split_bite(&mut tree, u64::MAX));
    assert_eq!(tree, sample_tree());
}

#[test]
fn the_bite_beside_a_new_bite_is_the_one_that_was_split() {
    let mut tree = sample_tree();
    assert_eq!(split_sibling(&tree, 21), None);
    assert!(split_bite(&mut tree, 3, Direction::Vertical, ratio(0.5), 21, "bash"));
    assert_eq!(split_sibling(&tree, 21), Some(3));
    assert_eq!(split_sibling(&tree, 3), None);
    assert_eq!(split_sibling(&tree, u64::MAX), None);
    assert_eq!(first_bite(&tree), 1);
    assert_eq!(first_bite(&single_pane(9)), 9);
}

#[test]
fn resize_moves_the_innermost_spoon_of_the_orientation() {
    let mut tree = spoon(
        10,
        Direction::Vertical,
        0.5,
        spoon(11, Direction::Vertical, 0.5, single_pane(1), single_pane(2)),
        single_pane(3),
    );
    assert!(resize_from_bite(&mut tree, 1, Direction::Vertical, ratio(0.2)));
    let expected = spoon(
        10,
        Direction::Vertical,
        0.5,
        spoon(11, Direction::Vertical, 0.7, single_pane(1), single_pane(2)),
        single_pane(3),
    );
    assert_eq!(tree, expected);
    assert!(resize_from_bite(&mut tree, 3, Direction::Vertical, ratio(-0.2)));
    let expected = spoon(
        10,
        Direction::Vertical,
        0.3,
        spoon(11, Direction::Vertical, 0.7, single_pane(1), single_pane(2)),
        single_pane(3),
    );
    assert_eq!(tree, expected);
}

#[test]
fn resize_skips_spoons_of_the_other_orientation_and_clamps() {
    let mut tree = sample_tree();
    assert!(resize_from_bite(&mut tree, 2, Direction::Vertical, ratio(0.2)));
    assert!(resize_from_bite(&mut tree, 2, Direction::Vertical, ratio(0.2)));
    assert!(resize_from_bite(&mut tree, 2, Direction::Vertical, ratio(0.2)));
    let expected = spoon(
        10,
        Direction::Vertical,
        0.9,
        single_pane(1),
        spoon(20, Direction::Horizontal, 0.5, single_pane(2), single_pane(3)),
    );
    assert_eq!(tree, expected);
    assert!(resize_from_bite(&mut tree, 3, Direction::Horizontal, i64::MIN));
    let expected = spoon(
        10,
        Direction::Vertical,
        0.9,
        single_pane(1),
        spoon(20, Direction::Horizontal, 0.1, single_pane(2), single_pane(3)),
    );
    assert_eq!(tree, expected);
    assert!(!resize_from_bite(&mut tree, 1, Direction::Horizontal, ratio(0.2)));
    assert!(!resize_from_bite(&mut tree, 999, Direction::Vertical, ratio(0.2)));
    assert_eq!(tree, expected);
}

#[test]
fn swap_exchanges_two_bites_under_one_spoon() {
    let mut tree = sample_tree();
    assert!(swap_adjacent_bites(&mut tree, 3, Direction::Horizontal));
    let expected = spoon(
        10,
        Direction::Vertical,
        0.5,
        single_pane(1),
        spoon(20, Direction::Horizontal, 0.5, single_pane(3), single_pane(2)),
    );
    assert_eq!(tree, expected);
    assert!(!swap_adjacent_bites(&mut tree, 1, Direction::Vertical));
    assert!(!swap_adjacent_bites(&mut tree, 2, Direction::Vertical));
    assert!(!swap_adjacent_bites(&mut tree, 999, Direction::Horizontal));
    assert_eq!(tree, expected);
}

#[test]
fn walk_visits_parents_before_children() {
    let tree = sample_tree();
    assert_eq!(all_ids(&tree), vec![10, 1, 20, 2, 3]);
    let mut nodes = vec![&tree];
    walk(&tree, &mut nodes);
    assert_eq!(nodes.len(), 6);
    assert_eq!(nodes[1], &tree);
}

#[test]
fn collect_bites_appends_in_focus_order() {
    let mut out = vec![99];
    collect_bites(&sample_tree(), &mut out);
    assert_eq!(out, vec![99, 1, 2, 3]);
}

#[test]
fn find_bite_finds_bites_only_and_find_node_any_node() {
    let tree = sample_tree();
    assert_eq!(find_bite(&tree, 3), Some(&single_pane(3)));
    assert_eq!(find_bite(&tree, 20), None);
    assert_eq!(find_bite(&tree, 999), None);
    assert_eq!(find_node(&tree, 20).map(|n| n.id()), Some(20));
    assert_eq!(find_node(&tree, 10), Some(&tree));
    assert_eq!(find_node(&tree, 3), Some(&single_pane(3)));
    assert_eq!(find_node(&tree, 999), None);
}

#[test]
fn find_bite_mut_changes_the_bite_in_place() {
    let mut tree = sample_tree();
    match find_bite_mut(&mut tree, 2) {
        Some(Node::Bite { name, command, .. }) => {
            *name = "logs".to_string();
            *command = "tail -f log".to_string();
        }
        _ => panic!("bite 2 should be found"),
    }
    let expected = spoon(
        10,
        Direction::Vertical,
        0.5,
        single_pane(1),
        spoon(20, Direction::Horizontal, 0.5, bite(2, "logs", "tail -f log"), single_pane(3)),
    );
    assert_eq!(tree, expected);
    assert!(find_bite_mut(&mut tree, 20).is_none());
}

#[test]
fn find_node_mut_changes_a_spoon_in_place() {
    let mut tree = sample_tree();
    match find_node_mut(&mut tree, 20) {
        Some(Node::Spoon { ratio, orientation, .. }) => {
            *ratio = 250_000;
            *orientation = Direction::Vertical;
        }
        _ => panic!("spoon 20 should be found"),
    }
    let expected = spoon(
        10,
        Direction::Vertical,
        0.5,
        single_pane(1),
        spoon(20, Direction::Vertical, 0.25, single_pane(2), single_pane(3)),
    );
    assert_eq!(tree, expected);
    if let Some(node) = find_node_mut(&mut tree, 10) {
        *node = single_pane(7);
    }
    assert_eq!(tree, single_pane(7));
    assert!(find_node_mut(&mut tree, 10).is_none());
}

#[test]
fn layout_rects_gives_each_bite_its_rectangle() {
    let area = Rect { x: 0, y: 0, width: 100, height: 40 };
    assert_eq!(
        rects_of(&sample_tree(), area),
        vec![
            (1, Rect { x: 0, y: 0, width: 50, height: 40 }),
            (2, Rect { x: 50, y: 0, width: 50, height: 20 }),
            (3, Rect { x: 50, y: 20, width: 50, height: 20 }),
        ]
    );
}

#[test]
fn find_bite_at_top_right_quadrant_is_bite_two() {
    let area = Rect { x: 0, y: 0, width: 100, height: 40 };
    assert_eq!(find_bite_at(&sample_tree(), area, 80, 5), Some(2));
    assert_eq!(find_bite_at(&sample_tree(), area, 50, 19), Some(2));
    assert_eq!(find_bite_at(&sample_tree(), area, 49, 19), Some(1));
    assert_eq!(find_bite_at(&sample_tree(), area, 50, 20), Some(3));
    assert_eq!(find_bite_at(&sample_tree(), area, 120, 5), None);
    assert_eq!(find_bite_at(&single_pane(7), area, 120, 5), Some(7));
    assert_eq!(find_pane_at(&single_pane(7), area, 120, 5), None);
}

#[test]
fn layout_tiles_the_area_and_agrees_with_the_search_by_cell() {
    let mut tree = sample_tree();
    let id = next_id(&tree);
    assert!(split_bite(&mut tree, 3, Direction::Vertical, ratio(0.3), id, "sh"));
    for area in [
        Rect { x: 2, y: 1, width: 37, height: 11 },
        Rect { x: 0, y: 0, width: 3, height: 2 },
        Rect { x: 5, y: 5, width: 1, height: 1 },
        Rect { x: 5, y: 5, width: 0, height: 4 },
    ] {
        let rects = rects_of(&tree, area);
        for x in 0..45u16 {
            for y in 0..15u16 {
                let holders: Vec<u64> = rects
                    .iter()
                    .filter(|(_, r)| point_in_rect(*r, x, y))
                    .map(|(id, _)| *id)
                    .collect();
                if point_in_rect(area, x, y) {
                    assert_eq!(holders.len(), 1);
                    assert_eq!(find_bite_at(&tree, area, x, y), Some(holders[0]));
                } else {
                    assert!(holders.is_empty());
                }
            }
        }
    }
}

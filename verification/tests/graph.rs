use llm_wiki::graph::{walk_entities, GraphSnapshot, GraphWalkOptions};
use llm_wiki::wiki_core::RelationKind;

#[test]
fn bfs_respects_depth() {
    let a: u128 = 0x1111;
    let b: u128 = 0x2222;
    let c: u128 = 0x3333;
    let g = GraphSnapshot {
        edges: vec![(a, b, RelationKind::DependsOn), (b, c, RelationKind::Uses)],
    };
    let out = walk_entities(
        &g,
        &[a],
        &GraphWalkOptions {
            max_depth: 1,
            allowed_relations: None,
        },
    );
    assert!(out.contains(&a));
    assert!(out.contains(&b));
    assert!(!out.contains(&c));
}

#[test]
fn walk_visits_breadth_first_without_repeats() {
    let g = GraphSnapshot {
        edges: vec![
            (1, 2, RelationKind::Uses),
            (1, 3, RelationKind::Related),
            (2, 4, RelationKind::Uses),
            (3, 4, RelationKind::Uses),
            (4, 1, RelationKind::Uses),
        ],
    };
    let out = walk_entities(&g, &[1, 1], &GraphWalkOptions::default());
    assert_eq!(out, vec![1, 2, 3, 4]);
}

#[test]
fn walk_follows_only_allowed_relations() {
    let g = GraphSnapshot {
        edges: vec![(1, 2, RelationKind::Uses), (1, 3, RelationKind::Contradicts)],
    };
    let opts = GraphWalkOptions {
        max_depth: 5,
        allowed_relations: Some(vec![RelationKind::Uses]),
    };
    assert_eq!(walk_entities(&g, &[1], &opts), vec![1, 2]);
    let zero = GraphWalkOptions {
        max_depth: 0,
        allowed_relations: None,
    };
    assert_eq!(walk_entities(&g, &[1, 9], &zero), vec![1, 9]);
    assert!(walk_entities(&g, &[], &zero).is_empty());
}

#[test]
fn default_walk_options() {
    let o = GraphWalkOptions::default();
    assert_eq!(o.max_depth, 3);
    assert!(o.allowed_relations.is_none());
}

#[test]
fn deeper_walks_keep_every_entity() {
    let g = GraphSnapshot {
        edges: vec![
            (1, 2, RelationKind::Uses),
            (2, 3, RelationKind::DependsOn),
            (3, 1, RelationKind::Related),
            (3, 4, RelationKind::Uses),
        ],
    };
    let mut prev: Vec<u128> = Vec::new();
    for depth in 0..5 {
        let got = walk_entities(&g, &[1], &GraphWalkOptions { max_depth: depth, allowed_relations: None });
        for x in &prev {
            assert!(got.contains(x));
        }
        prev = got;
    }
    assert_eq!(prev.len(), 4);
}

#[test]
fn walk_lists_distinct_seeds_first_then_by_distance() {
    let g = GraphSnapshot {
        edges: vec![(1, 2, RelationKind::DependsOn), (2, 3, RelationKind::Uses), (5, 4, RelationKind::Uses)],
    };
    let opts = GraphWalkOptions { max_depth: 3, allowed_relations: None };
    assert_eq!(walk_entities(&g, &[5, 1, 5], &opts), vec![5, 1, 4, 2, 3]);
}

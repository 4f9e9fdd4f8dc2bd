use helix_db::engine::paths::{
    bfs_path_for_node, bfs_shortest_path, path_ends, path_type_of, EdgeRecord, GraphModel, Path,
    PathError, PathType,
};

fn edge(from: u128, label: &str, id: u128, to: u128) -> EdgeRecord {
    EdgeRecord { from, label: label.to_string(), id, to }
}

/// Four people in a chain: 1 -> 2 -> 3 -> 4 along `knows` edges 101, 102, 103.
fn chain() -> GraphModel {
    GraphModel {
        edges: vec![edge(1, "knows", 101, 2), edge(2, "knows", 102, 3), edge(3, "knows", 103, 4)],
    }
}

fn found(r: Result<Path, PathError>) -> Path {
    match r {
        Ok(p) => p,
        Err(_) => panic!("Expected Path value"),
    }
}

#[test]
fn test_shortest_path() {
    let g = chain();
    let path_type = path_type_of(None, Some(4));
    let path = found(bfs_path_for_node(&g, Some("knows"), &path_type, 1));
    assert_eq!(path.nodes.len(), 4);
    assert_eq!(path.edges.len(), 3);
    assert_eq!(path.nodes, vec![1, 2, 3, 4]);
    assert_eq!(path.edges, vec![101, 102, 103]);
}

#[test]
fn test_shortest_path_from_one_node_to_itself() {
    let g = chain();
    let path_type = path_type_of(None, Some(1));
    let path = found(bfs_path_for_node(&g, Some("knows"), &path_type, 1));
    assert_eq!(path.nodes.len(), 1);
    assert_eq!(path.edges.len(), 0);
    assert_eq!(path.nodes[0], 1);
}

#[test]
fn test_shortest_path_not_found() {
    let g = chain();
    let path_type = path_type_of(None, Some(5));
    let r = bfs_path_for_node(&g, Some("knows"), &path_type, 1);
    assert!(matches!(r, Err(PathError::ShortestPathNotFound)));
}

#[test]
fn bfs_prefers_fewest_edges() {
    // 1 -> 2 -> 3 -> 4 and a shortcut 1 -> 4.
    let mut g = chain();
    g.edges.push(edge(1, "knows", 104, 4));
    let path = found(bfs_shortest_path(&g, Some("knows"), 1, 4));
    assert_eq!(path.nodes, vec![1, 4]);
    assert_eq!(path.edges, vec![104]);
}

#[test]
fn bfs_follows_only_the_label() {
    let mut g = chain();
    g.edges.push(edge(1, "likes", 105, 4));
    let path = found(bfs_shortest_path(&g, Some("knows"), 1, 4));
    assert_eq!(path.edges, vec![101, 102, 103]);
    let any = found(bfs_shortest_path(&g, None, 1, 4));
    assert_eq!(any.edges, vec![105]);
}

#[test]
fn bfs_follows_edges_forward_only() {
    let g = chain();
    let r = bfs_shortest_path(&g, Some("knows"), 4, 1);
    assert!(matches!(r, Err(PathError::ShortestPathNotFound)));
}

#[test]
fn bfs_path_from_a_start_node() {
    let g = chain();
    let path_type = path_type_of(Some(2), None);
    assert!(matches!(path_type, PathType::From(2)));
    let path = found(bfs_path_for_node(&g, Some("knows"), &path_type, 4));
    assert_eq!(path.nodes, vec![2, 3, 4]);
    assert_eq!(path.edges, vec![102, 103]);
}

#[test]
fn path_ends_by_path_type() {
    assert_eq!(path_ends(&PathType::From(7), 9), (7, 9));
    assert_eq!(path_ends(&PathType::To(7), 9), (9, 7));
}

#[test]
fn bfs_breaks_ties_by_edge_order() {
    // Two paths of two edges from 1 to 4: through 3 (listed first out of 1) and through 2.
    // The edge into 4 out of 2 is listed before the one out of 3, but the first edge decides.
    let g = GraphModel {
        edges: vec![
            edge(2, "knows", 202, 4),
            edge(1, "knows", 103, 3),
            edge(1, "knows", 102, 2),
            edge(3, "knows", 304, 4),
        ],
    };
    let path = found(bfs_shortest_path(&g, None, 1, 4));
    assert_eq!(path.nodes, vec![1, 3, 4]);
    assert_eq!(path.edges, vec![103, 304]);
    // Two parallel edges from 1 to 2: the one listed first is taken.
    let g = GraphModel { edges: vec![edge(1, "likes", 7, 2), edge(1, "likes", 5, 2)] };
    let path = found(bfs_shortest_path(&g, Some("likes"), 1, 2));
    assert_eq!(path.edges, vec![7]);
}

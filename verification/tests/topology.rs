use nmm::board::{are_adjacent, mill_triple, MILLS, POINTS};

#[test]
fn there_are_sixteen_distinct_mills() {
    assert_eq!(MILLS, 16);
    let mut seen: Vec<[usize; 3]> = Vec::new();
    for i in 0..MILLS {
        let (a, b, c) = mill_triple(i);
        assert!(a < POINTS && b < POINTS && c < POINTS);
        assert!(a != b && b != c && a != c);
        let mut sorted = [a, b, c];
        sorted.sort();
        assert!(!seen.contains(&sorted), "duplicate mill {:?}", sorted);
        seen.push(sorted);
    }
    assert_eq!(seen.len(), 16);
}

#[test]
fn mills_run_along_adjacent_points() {
    // Every mill is a line: its three points form a path in the adjacency
    // graph (middle point adjacent to both ends).
    for i in 0..MILLS {
        let (a, b, c) = mill_triple(i);
        assert!(are_adjacent(a, b), "mill {} not a line", i);
        assert!(are_adjacent(b, c), "mill {} not a line", i);
        assert!(!are_adjacent(a, c), "mill {} ends should not touch", i);
    }
}

#[test]
fn adjacency_is_symmetric_and_irreflexive() {
    for a in 0..POINTS {
        assert!(!are_adjacent(a, a));
        for b in 0..POINTS {
            assert_eq!(are_adjacent(a, b), are_adjacent(b, a));
        }
    }
}

#[test]
fn every_point_has_its_known_degree() {
    // Corner points of each ring touch 2 neighbors, T-points on the outer
    // and inner rings 3, and the middle ring's midpoints (the crossings) 4.
    let expected: [usize; 24] = [
        2, 3, 2, 3, 2, 3, 2, 3, 2, 4, 2, 4, 2, 4, 2, 4, 2, 3, 2, 3, 2, 3, 2, 3,
    ];
    for a in 0..POINTS {
        let degree = (0..POINTS).filter(|&b| are_adjacent(a, b)).count();
        assert_eq!(degree, expected[a], "degree of point {}", a);
    }
}

//! Board topology: the 16 mill triples and the adjacency graph of the 24
//! points. Pure constant data with membership queries; everything above is
//! validated against it.

use vstd::prelude::*;

verus! {

/// Number of points on the board.
pub const POINTS: usize = 24;

/// Number of mill triples.
pub const MILLS: usize = 16;

/// The `i`-th of the 16 mill triples, as point numbers.
pub open spec fn mill_spec(i: int) -> (int, int, int) {
    if i == 0 {
        (0, 1, 2)
    } else if i == 1 {
        (2, 3, 4)
    } else if i == 2 {
        (4, 5, 6)
    } else if i == 3 {
        (6, 7, 0)
    } else if i == 4 {
        (8, 9, 10)
    } else if i == 5 {
        (10, 11, 12)
    } else if i == 6 {
        (12, 13, 14)
    } else if i == 7 {
        (14, 15, 8)
    } else if i == 8 {
        (16, 17, 18)
    } else if i == 9 {
        (18, 19, 20)
    } else if i == 10 {
        (20, 21, 22)
    } else if i == 11 {
        (22, 23, 16)
    } else if i == 12 {
        (1, 9, 17)
    } else if i == 13 {
        (3, 11, 19)
    } else if i == 14 {
        (5, 13, 21)
    } else {
        (7, 15, 23)
    }
}

/// Whether point `p` belongs to mill triple `i`.
pub open spec fn mill_has(i: int, p: int) -> bool {
    let m = mill_spec(i);
    m.0 == p || m.1 == p || m.2 == p
}

/// The `i`-th mill triple, for executable scans over the 16 mills.
pub fn mill_triple(i: usize) -> (r: (usize, usize, usize))
    requires
        i < MILLS,
    ensures
        (r.0 as int, r.1 as int, r.2 as int) == mill_spec(i as int),
        r.0 < POINTS && r.1 < POINTS && r.2 < POINTS,
{
    match i {
        0 => (0, 1, 2),
        1 => (2, 3, 4),
        2 => (4, 5, 6),
        3 => (6, 7, 0),
        4 => (8, 9, 10),
        5 => (10, 11, 12),
        6 => (12, 13, 14),
        7 => (14, 15, 8),
        8 => (16, 17, 18),
        9 => (18, 19, 20),
        10 => (20, 21, 22),
        11 => (22, 23, 16),
        12 => (1, 9, 17),
        13 => (3, 11, 19),
        14 => (5, 13, 21),
        _ => (7, 15, 23),
    }
}

/// The (at most four) neighbors of point `p`; slots past the point's degree
/// hold the out-of-range marker 24.
pub open spec fn neighbors_spec(p: int) -> (int, int, int, int) {
    if p == 0 {
        (1, 7, 24, 24)
    } else if p == 1 {
        (0, 2, 9, 24)
    } else if p == 2 {
        (1, 3, 24, 24)
    } else if p == 3 {
        (2, 4, 11, 24)
    } else if p == 4 {
        (3, 5, 24, 24)
    } else if p == 5 {
        (4, 6, 13, 24)
    } else if p == 6 {
        (5, 7, 24, 24)
    } else if p == 7 {
        (0, 6, 15, 24)
    } else if p == 8 {
        (9, 15, 24, 24)
    } else if p == 9 {
        (1, 8, 10, 17)
    } else if p == 10 {
        (9, 11, 24, 24)
    } else if p == 11 {
        (3, 10, 12, 19)
    } else if p == 12 {
        (11, 13, 24, 24)
    } else if p == 13 {
        (5, 12, 14, 21)
    } else if p == 14 {
        (13, 15, 24, 24)
    } else if p == 15 {
        (7, 8, 14, 23)
    } else if p == 16 {
        (17, 23, 24, 24)
    } else if p == 17 {
        (9, 16, 18, 24)
    } else if p == 18 {
        (17, 19, 24, 24)
    } else if p == 19 {
        (11, 18, 20, 24)
    } else if p == 20 {
        (19, 21, 24, 24)
    } else if p == 21 {
        (13, 20, 22, 24)
    } else if p == 22 {
        (21, 23, 24, 24)
    } else {
        (15, 16, 22, 24)
    }
}

/// Whether points `a` and `b` are directly connected on the board.
pub open spec fn adjacent_spec(a: int, b: int) -> bool {
    let n = neighbors_spec(a);
    n.0 == b || n.1 == b || n.2 == b || n.3 == b
}

/// The neighbor slots of point `p`, for executable adjacency scans; unused
/// slots hold 24.
pub fn neighbors(p: usize) -> (r: (usize, usize, usize, usize))
    requires
        p < POINTS,
    ensures
        (r.0 as int, r.1 as int, r.2 as int, r.3 as int) == neighbors_spec(p as int),
        r.0 <= POINTS && r.1 <= POINTS && r.2 <= POINTS && r.3 <= POINTS,
{
    match p {
        0 => (1, 7, 24, 24),
        1 => (0, 2, 9, 24),
        2 => (1, 3, 24, 24),
        3 => (2, 4, 11, 24),
        4 => (3, 5, 24, 24),
        5 => (4, 6, 13, 24),
        6 => (5, 7, 24, 24),
        7 => (0, 6, 15, 24),
        8 => (9, 15, 24, 24),
        9 => (1, 8, 10, 17),
        10 => (9, 11, 24, 24),
        11 => (3, 10, 12, 19),
        12 => (11, 13, 24, 24),
        13 => (5, 12, 14, 21),
        14 => (13, 15, 24, 24),
        15 => (7, 8, 14, 23),
        16 => (17, 23, 24, 24),
        17 => (9, 16, 18, 24),
        18 => (17, 19, 24, 24),
        19 => (11, 18, 20, 24),
        20 => (19, 21, 24, 24),
        21 => (13, 20, 22, 24),
        22 => (21, 23, 24, 24),
        _ => (15, 16, 22, 24),
    }
}

/// Every mill lies along a line of the board: its middle point is adjacent
/// to both ends, which do not touch each other.
pub proof fn lemma_mills_lie_on_lines(i: int)
    requires
        0 <= i < 16,
    ensures
        ({
            let m = mill_spec(i);
            adjacent_spec(m.0, m.1) && adjacent_spec(m.1, m.2) && !adjacent_spec(m.0, m.2)
        }),
{
}

/// Adjacency is a symmetric, irreflexive relation on the 24 points: the
/// neighbor table lists every connection from both of its ends and connects
/// no point to itself.
pub proof fn lemma_adjacency_symmetric_irreflexive(a: int, b: int)
    requires
        0 <= a < 24,
        0 <= b < 24,
    ensures
        adjacent_spec(a, b) == adjacent_spec(b, a),
        !adjacent_spec(a, a),
{
}

/// Whether `from` and `to` are directly connected.
pub fn are_adjacent(from: usize, to: usize) -> (r: bool)
    requires
        from < POINTS,
    ensures
        r == adjacent_spec(from as int, to as int),
{
    let n = neighbors(from);
    n.0 == to || n.1 == to || n.2 == to || n.3 == to
}

} // verus!

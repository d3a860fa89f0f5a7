//! The mathematical model of the game: a ghost record of the whole state, the
//! legality predicates, the transition function for each action, the win
//! evaluator, and the piece-conservation invariant. The executable engine in
//! `game` is specified entirely against this model.

use vstd::prelude::*;

use crate::board::{adjacent_spec, mill_has, mill_spec};
use crate::types::{opp, Action, ActionKind, Color};

verus! {

/// The whole live state of a game, minus the undo history.
pub struct StateModel {
    /// Contents of the 24 points, in point order.
    pub board: Seq<Option<Color>>,
    /// Whose turn it is.
    pub to_move: Color,
    /// Pieces White has not placed yet.
    pub unplaced_white: nat,
    /// Pieces Black has not placed yet.
    pub unplaced_black: nat,
    /// White pieces that have been captured.
    pub removed_white: nat,
    /// Black pieces that have been captured.
    pub removed_black: nat,
    /// When `Some(p)`, player `p` has just formed a mill and owes a removal;
    /// only that player's `Remove` is legal next.
    pub must_remove: Option<Color>,
}

/// A game together with its undo history: one snapshot per successful action,
/// oldest first.
pub struct GameModel {
    pub state: StateModel,
    pub history: Seq<StateModel>,
}

/// The unplaced-piece counter of color `c`.
pub open spec fn unplaced_of(s: StateModel, c: Color) -> nat {
    match c {
        Color::White => s.unplaced_white,
        Color::Black => s.unplaced_black,
    }
}

/// The removed-piece counter of color `c` (pieces of `c` that were captured).
pub open spec fn removed_of(s: StateModel, c: Color) -> nat {
    match c {
        Color::White => s.removed_white,
        Color::Black => s.removed_black,
    }
}

/// How many of the first `n` points hold a piece of color `c`.
pub open spec fn count_upto(b: Seq<Option<Color>>, c: Color, n: int) -> int
    decreases n,
{
    if n <= 0 {
        0
    } else {
        count_upto(b, c, n - 1) + if b[n - 1] == Some(c) {
            1int
        } else {
            0int
        }
    }
}

/// How many points of the board hold a piece of color `c`.
pub open spec fn count_color(b: Seq<Option<Color>>, c: Color) -> int {
    count_upto(b, c, b.len() as int)
}

/// Whether the three points of mill triple `i` all hold pieces of color `c`.
pub open spec fn mill_filled(b: Seq<Option<Color>>, i: int, c: Color) -> bool {
    let m = mill_spec(i);
    b[m.0] == Some(c) && b[m.1] == Some(c) && b[m.2] == Some(c)
}

/// Whether color `c` has a completed mill through point `p`.
pub open spec fn forms_mill_spec(b: Seq<Option<Color>>, p: int, c: Color) -> bool {
    exists|i: int| 0 <= i < 16 && mill_has(i, p) && #[trigger] mill_filled(b, i, c)
}

/// Whether the piece at point `p` (if any) is part of a completed mill.
pub open spec fn point_in_mill_spec(b: Seq<Option<Color>>, p: int) -> bool {
    match b[p] {
        Some(c) => forms_mill_spec(b, p, c),
        None => false,
    }
}

/// Whether every piece of color `c` on the board is part of a completed mill.
pub open spec fn all_in_mills_spec(b: Seq<Option<Color>>, c: Color) -> bool {
    forall|q: int| 0 <= q < 24 && b[q] == Some(c) ==> #[trigger] point_in_mill_spec(b, q)
}

/// Whether the piece of color `c` at point `q` may be captured: a piece is
/// protected while it sits in a mill, unless every piece of its color does.
pub open spec fn removable_spec(b: Seq<Option<Color>>, c: Color, q: int) -> bool {
    b[q] == Some(c) && (all_in_mills_spec(b, c) || !point_in_mill_spec(b, q))
}

/// Whether any piece of color `c` may be captured.
pub open spec fn can_remove_any_spec(b: Seq<Option<Color>>, c: Color) -> bool {
    exists|q: int| 0 <= q < 24 && #[trigger] removable_spec(b, c, q)
}

/// After `player` has put a piece on `dest`: if that completed a mill and the
/// opponent has a capturable piece, the player owes a removal; otherwise the
/// turn passes.
pub open spec fn settle(s: StateModel, player: Color, dest: int) -> StateModel {
    if forms_mill_spec(s.board, dest, player) && can_remove_any_spec(s.board, opp(player)) {
        StateModel { must_remove: Some(player), ..s }
    } else {
        StateModel { to_move: opp(player), ..s }
    }
}

/// Whether `Place(p)` by `player` is legal in state `s`.
pub open spec fn place_ok(s: StateModel, player: Color, p: int) -> bool {
    &&& s.must_remove is None
    &&& s.to_move == player
    &&& 0 <= p < 24
    &&& unplaced_of(s, player) > 0
    &&& s.board[p] is None
}

/// The state after a legal `Place(p)` by `player`, before settling mills.
pub open spec fn after_place(s: StateModel, player: Color, p: int) -> StateModel {
    let placed = StateModel {
        board: s.board.update(p, Some(player)),
        unplaced_white: if player == Color::White {
            (s.unplaced_white - 1) as nat
        } else {
            s.unplaced_white
        },
        unplaced_black: if player == Color::Black {
            (s.unplaced_black - 1) as nat
        } else {
            s.unplaced_black
        },
        ..s
    };
    settle(placed, player, p)
}

/// Whether `Move(from, to)` by `player` is legal in state `s`: movement phase,
/// own piece at `from`, empty `to`, and adjacency unless the player is down to
/// exactly three pieces ("flying").
pub open spec fn move_ok(s: StateModel, player: Color, from: int, to: int) -> bool {
    &&& s.must_remove is None
    &&& s.to_move == player
    &&& 0 <= from < 24
    &&& 0 <= to < 24
    &&& unplaced_of(s, player) == 0
    &&& s.board[from] == Some(player)
    &&& s.board[to] is None
    &&& (count_color(s.board, player) == 3 || adjacent_spec(from, to))
}

/// The state after a legal `Move(from, to)` by `player`.
pub open spec fn after_move(s: StateModel, player: Color, from: int, to: int) -> StateModel {
    let moved = StateModel { board: s.board.update(from, None).update(to, Some(player)), ..s };
    settle(moved, player, to)
}

/// Whether `Remove(p)` by `player` is legal in state `s`: a removal must be
/// owed by exactly this player, and `p` must hold a capturable opponent piece.
pub open spec fn remove_ok(s: StateModel, player: Color, p: int) -> bool {
    &&& s.must_remove == Some(player)
    &&& 0 <= p < 24
    &&& removable_spec(s.board, opp(player), p)
}

/// The state after a legal `Remove(p)` by `player`: the point is vacated, the
/// victim's removed counter grows, and the victim resumes play.
pub open spec fn after_remove(s: StateModel, player: Color, p: int) -> StateModel {
    StateModel {
        board: s.board.update(p, None),
        to_move: opp(player),
        removed_white: if opp(player) == Color::White {
            s.removed_white + 1
        } else {
            s.removed_white
        },
        removed_black: if opp(player) == Color::Black {
            s.removed_black + 1
        } else {
            s.removed_black
        },
        must_remove: None,
        ..s
    }
}

/// The transition function: `Some(next state)` when the action is legal in
/// `s`, `None` when it must be rejected (and the state left unchanged).
pub open spec fn apply_spec(s: StateModel, a: Action) -> Option<StateModel> {
    match a.action {
        ActionKind::Place(p) => if place_ok(s, a.player, p as int) {
            Some(after_place(s, a.player, p as int))
        } else {
            None
        },
        ActionKind::Move(from, to) => if move_ok(s, a.player, from as int, to as int) {
            Some(after_move(s, a.player, from as int, to as int))
        } else {
            None
        },
        ActionKind::Remove(p) => if remove_ok(s, a.player, p as int) {
            Some(after_remove(s, a.player, p as int))
        } else {
            None
        },
    }
}

/// The error text a rejected action reports, following the validation order:
/// the pending-removal gate, then the turn, then the point range, then the
/// phase-specific structural checks.
pub open spec fn reject_text(s: StateModel, a: Action) -> Seq<char>
    recommends
        apply_spec(s, a) is None,
{
    match s.must_remove {
        Some(waiting) => {
            if a.player != waiting {
                "This player must remove"@
            } else {
                match a.action {
                    ActionKind::Remove(p) => {
                        if p >= 24 {
                            "Point out of range"@
                        } else if s.board[p as int] != Some(opp(a.player)) {
                            "Can only remove opponent piece"@
                        } else {
                            "Cannot remove a piece in a mill"@
                        }
                    },
                    _ => "Must remove a piece"@,
                }
            }
        },
        None => {
            if a.player != s.to_move {
                "Not this player's turn"@
            } else {
                match a.action {
                    ActionKind::Place(p) => {
                        if p >= 24 {
                            "Point out of range"@
                        } else if unplaced_of(s, a.player) == 0 {
                            "No pieces left to place"@
                        } else {
                            "Point already occupied"@
                        }
                    },
                    ActionKind::Move(from, to) => {
                        if from >= 24 || to >= 24 {
                            "Point out of range"@
                        } else if unplaced_of(s, a.player) > 0 {
                            "Must place all pieces before moving"@
                        } else if s.board[from as int] != Some(a.player) {
                            "No piece of this player at source"@
                        } else if s.board[to as int] is Some {
                            "Destination not empty"@
                        } else {
                            "Points not adjacent"@
                        }
                    },
                    ActionKind::Remove(_) => "Remove not allowed now"@,
                }
            }
        },
    }
}

/// Whether the board has an empty point.
pub open spec fn has_empty(b: Seq<Option<Color>>) -> bool {
    exists|q: int| 0 <= q < 24 && (#[trigger] b[q]) is None
}

/// Whether color `c` has a piece on the board.
pub open spec fn has_piece(b: Seq<Option<Color>>, c: Color) -> bool {
    exists|q: int| 0 <= q < 24 && (#[trigger] b[q]) == Some(c)
}

/// Whether color `c` can slide the piece at `from` to some adjacent empty point.
pub open spec fn can_move_from(b: Seq<Option<Color>>, c: Color, from: int) -> bool {
    b[from] == Some(c) && exists|t: int|
        0 <= t < 24 && adjacent_spec(from, t) && (#[trigger] b[t]) is None
}

/// Whether color `c` has an adjacent sliding move somewhere on the board.
pub open spec fn has_adjacent_move(b: Seq<Option<Color>>, c: Color) -> bool {
    exists|f: int| 0 <= f < 24 && #[trigger] can_move_from(b, c, f)
}

/// Whether `player` has any legal placement or movement available in state
/// `s`: an empty point while placing; any own piece plus any empty point while
/// flying on exactly three pieces; otherwise an own piece with an adjacent
/// empty point.
pub open spec fn can_act_for(s: StateModel, player: Color) -> bool {
    if unplaced_of(s, player) > 0 {
        has_empty(s.board)
    } else if count_color(s.board, player) == 3 {
        has_piece(s.board, player) && has_empty(s.board)
    } else {
        has_adjacent_move(s.board, player)
    }
}

/// Whether the player to move has any legal placement or movement available.
/// This is what the starvation win condition is judged by.
pub open spec fn can_act_spec(s: StateModel) -> bool {
    can_act_for(s, s.to_move)
}

/// The win evaluator: a side that has lost seven pieces loses (checked for
/// both sides first), and otherwise a player to move with no legal placement
/// or movement loses.
pub open spec fn winner_spec(s: StateModel) -> Option<Color> {
    if removed_of(s, Color::Black) >= 7 {
        Some(Color::White)
    } else if removed_of(s, Color::White) >= 7 {
        Some(Color::Black)
    } else if !can_act_spec(s) {
        Some(opp(s.to_move))
    } else {
        None
    }
}

/// Conservation of pieces: each side's nine pieces are split among unplaced,
/// on the board, and captured. Every reachable state satisfies this.
pub open spec fn state_inv(s: StateModel) -> bool {
    &&& s.board.len() == 24
    &&& s.unplaced_white + count_color(s.board, Color::White) + s.removed_white == 9
    &&& s.unplaced_black + count_color(s.board, Color::Black) + s.removed_black == 9
}

/// Well-formedness of a game with its history: the live state and every
/// snapshot satisfy the state invariant.
pub open spec fn game_inv(m: GameModel) -> bool {
    &&& state_inv(m.state)
    &&& forall|i: int| 0 <= i < m.history.len() ==> state_inv(#[trigger] m.history[i])
}

/// The state of a fresh game: empty board, White to move, nine unplaced
/// pieces each, nothing captured, no removal owed.
pub open spec fn initial_state() -> StateModel {
    StateModel {
        board: Seq::new(24, |i: int| None::<Color>),
        to_move: Color::White,
        unplaced_white: 9,
        unplaced_black: 9,
        removed_white: 0,
        removed_black: 0,
        must_remove: None,
    }
}

/// A fresh game: the initial state and no history.
pub open spec fn initial_game() -> GameModel {
    GameModel { state: initial_state(), history: Seq::empty() }
}

/// The transition function lifted to a game with history: a legal action
/// first snapshots the current state, then steps it.
pub open spec fn apply_game(m: GameModel, a: Action) -> Option<GameModel> {
    match apply_spec(m.state, a) {
        Some(s) => Some(GameModel { state: s, history: m.history.push(m.state) }),
        None => None,
    }
}

/// One undo: the latest snapshot becomes the live state again.
pub open spec fn undo_game(m: GameModel) -> GameModel
    recommends
        m.history.len() > 0,
{
    GameModel { state: m.history.last(), history: m.history.drop_last() }
}

/// A whole sequence of actions applied in order, all of which must be legal.
pub open spec fn apply_all(m: GameModel, acts: Seq<Action>) -> Option<GameModel>
    decreases acts.len(),
{
    if acts.len() == 0 {
        Some(m)
    } else {
        match apply_game(m, acts[0]) {
            Some(m2) => apply_all(m2, acts.drop_first()),
            None => None,
        }
    }
}

/// `n` undos in a row.
pub open spec fn undo_n(m: GameModel, n: nat) -> GameModel
    decreases n,
{
    if n == 0 {
        m
    } else {
        undo_game(undo_n(m, (n - 1) as nat))
    }
}

/// Counting a board with one point changed: the count of `c` loses the old
/// occupant's contribution at `p` and gains the new one's.
pub proof fn lemma_count_upto_update(
    b: Seq<Option<Color>>,
    c: Color,
    n: int,
    p: int,
    v: Option<Color>,
)
    requires
        0 <= p < b.len(),
        n <= b.len(),
    ensures
        count_upto(b.update(p, v), c, n) == count_upto(b, c, n) - (if p < n && b[p] == Some(c) {
            1int
        } else {
            0int
        }) + (if p < n && v == Some(c) {
            1int
        } else {
            0int
        }),
    decreases n,
{
    if n > 0 {
        lemma_count_upto_update(b, c, n - 1, p, v);
    }
}

/// The count over a prefix of length `n` lies between 0 and `n`.
pub proof fn lemma_count_upto_bounds(b: Seq<Option<Color>>, c: Color, n: int)
    requires
        0 <= n <= b.len(),
    ensures
        0 <= count_upto(b, c, n) <= n,
    decreases n,
{
    if n > 0 {
        lemma_count_upto_bounds(b, c, n - 1);
    }
}

/// Moving a piece of `c` (vacate `from`, occupy `to`) keeps both colors'
/// counts unchanged except that nothing changes at all; removing or placing
/// shifts exactly one count by one. Stated for each action's board change.
pub proof fn lemma_count_place(b: Seq<Option<Color>>, player: Color, p: int)
    requires
        0 <= p < b.len(),
        b[p] is None,
    ensures
        count_color(b.update(p, Some(player)), player) == count_color(b, player) + 1,
        count_color(b.update(p, Some(player)), opp(player)) == count_color(b, opp(player)),
{
    lemma_count_upto_update(b, player, b.len() as int, p, Some(player));
    lemma_count_upto_update(b, opp(player), b.len() as int, p, Some(player));
}

/// Removing the piece at `p` lowers its color's count by one and leaves the
/// other color's count alone.
pub proof fn lemma_count_remove(b: Seq<Option<Color>>, victim: Color, p: int)
    requires
        0 <= p < b.len(),
        b[p] == Some(victim),
    ensures
        count_color(b.update(p, None), victim) == count_color(b, victim) - 1,
        count_color(b.update(p, None), opp(victim)) == count_color(b, opp(victim)),
{
    lemma_count_upto_update(b, victim, b.len() as int, p, None);
    lemma_count_upto_update(b, opp(victim), b.len() as int, p, None);
}

/// Sliding a piece of `player` from `from` to an empty `to` keeps both counts.
pub proof fn lemma_count_move(b: Seq<Option<Color>>, player: Color, from: int, to: int)
    requires
        0 <= from < b.len(),
        0 <= to < b.len(),
        from != to,
        b[from] == Some(player),
        b[to] is None,
    ensures
        count_color(b.update(from, None).update(to, Some(player)), player) == count_color(
            b,
            player,
        ),
        count_color(b.update(from, None).update(to, Some(player)), opp(player)) == count_color(
            b,
            opp(player),
        ),
{
    let b1 = b.update(from, None);
    lemma_count_remove(b, player, from);
    lemma_count_place(b1, player, to);
    assert(opp(opp(player)) == player);
}

/// Every legal step preserves the conservation invariant.
pub proof fn lemma_apply_preserves_inv(s: StateModel, a: Action)
    requires
        state_inv(s),
        apply_spec(s, a) is Some,
    ensures
        state_inv(apply_spec(s, a)->Some_0),
{
    match a.action {
        ActionKind::Place(p) => {
            lemma_count_place(s.board, a.player, p as int);
            assert(opp(opp(a.player)) == a.player);
        },
        ActionKind::Move(from, to) => {
            lemma_count_move(s.board, a.player, from as int, to as int);
            assert(opp(opp(a.player)) == a.player);
        },
        ActionKind::Remove(p) => {
            lemma_count_remove(s.board, opp(a.player), p as int);
            assert(opp(opp(a.player)) == a.player);
        },
    }
}

} // verus!

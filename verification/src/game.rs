//! The executable engine: the `Game` state, the action validator and
//! transition function, the win evaluator, and snapshot-based undo. Every
//! method is specified against the ghost model in `model`.

use vstd::prelude::*;

use crate::board::{are_adjacent, mill_triple, neighbors, MILLS, POINTS};
use crate::model::{
    after_move, after_place, after_remove, all_in_mills_spec, apply_spec, can_act_for,
    can_move_from, can_remove_any_spec, count_color, count_upto, forms_mill_spec, game_inv,
    has_empty, has_piece, initial_game, initial_state, lemma_apply_preserves_inv,
    lemma_count_upto_bounds, mill_filled, move_ok, place_ok, point_in_mill_spec, reject_text,
    remove_ok, removable_spec, settle, undo_game, unplaced_of, winner_spec, GameModel, StateModel,
};
use crate::types::{Action, ActionKind, Color, Piece, Player};

verus! {

/// Whether a board cell holds a piece of the given color.
fn cell_is(cell: Option<Color>, color: Color) -> (r: bool)
    ensures
        r == (cell == Some(color)),
{
    match cell {
        Some(c) => c == color,
        None => false,
    }
}

/// Whether a board cell is empty.
fn cell_empty(cell: Option<Color>) -> (r: bool)
    ensures
        r == (cell is None),
{
    match cell {
        Some(_) => false,
        None => true,
    }
}

/// One saved state, pushed before every successful action.
struct Snapshot {
    board: [Option<Piece>; 24],
    to_move: Player,
    unplaced_white: u8,
    unplaced_black: u8,
    removed_white: u8,
    removed_black: u8,
    must_remove: Option<Player>,
}

impl Snapshot {
    /// The state a snapshot stands for.
    closed spec fn model(&self) -> StateModel {
        StateModel {
            board: self.board@,
            to_move: self.to_move,
            unplaced_white: self.unplaced_white as nat,
            unplaced_black: self.unplaced_black as nat,
            removed_white: self.removed_white as nat,
            removed_black: self.removed_black as nat,
            must_remove: self.must_remove,
        }
    }
}

/// A complete game session: the live state plus the undo history.
pub struct Game {
    board: [Option<Piece>; 24],
    to_move: Player,
    unplaced_white: u8,
    unplaced_black: u8,
    removed_white: u8,
    removed_black: u8,
    must_remove: Option<Player>,
    history: Vec<Snapshot>,
}

/// The engine's interface: create, act, undo, inspect, and evaluate wins.
pub trait NmmGame: Sized {
    /// The game this value stands for, as the ghost model.
    spec fn model(&self) -> GameModel;

    /// Creates a new instance with an empty board, White to move, nine
    /// unplaced pieces per side, and no history.
    fn new() -> (g: Self)
        ensures
            g.model() == initial_game(),
            game_inv(g.model()),
    ;

    /// Applies the given action. A legal action snapshots the current state
    /// and steps it per the transition function; an illegal one is rejected
    /// with the error the validation order prescribes and leaves the state
    /// (history included) untouched.
    fn action(&mut self, action: Action) -> (r: Result<(), &'static str>)
        requires
            game_inv(old(self).model()),
        ensures
            game_inv(final(self).model()),
            match apply_spec(old(self).model().state, action) {
                Some(s) => {
                    &&& r is Ok
                    &&& final(self).model().state == s
                    &&& final(self).model().history == old(self).model().history.push(
                        old(self).model().state,
                    )
                },
                None => {
                    &&& r matches Err(e) && e@ == reject_text(old(self).model().state, action)
                    &&& final(self).model() == old(self).model()
                },
            },
    ;

    /// Undoes the last action by restoring the latest snapshot. This fails
    /// if there is no last action to be undone.
    fn undo(&mut self) -> (r: Result<(), &'static str>)
        requires
            game_inv(old(self).model()),
        ensures
            game_inv(final(self).model()),
            old(self).model().history.len() == 0 ==> (r matches Err(e) && e@
                == "No action to undo"@) && final(self).model() == old(self).model(),
            old(self).model().history.len() > 0 ==> r is Ok && final(self).model() == undo_game(
                old(self).model(),
            ),
    ;

    /// All points of the game board.
    fn points(&self) -> (r: &[Option<Piece>; 24])
        ensures
            r@ == self.model().state.board,
    ;

    /// Returns if there is currently a winner. There are two win conditions:
    /// one player has removed 7 pieces of the opponent, or the player to move
    /// cannot make a legal placement or movement.
    fn winner(&self) -> (r: Option<Player>)
        ensures
            r == winner_spec(self.model().state),
    ;
}

impl Game {
    /// The live state of the game, without the history.
    closed spec fn state_model(&self) -> StateModel {
        StateModel {
            board: self.board@,
            to_move: self.to_move,
            unplaced_white: self.unplaced_white as nat,
            unplaced_black: self.unplaced_black as nat,
            removed_white: self.removed_white as nat,
            removed_black: self.removed_black as nat,
            must_remove: self.must_remove,
        }
    }

    /// Copies the live state for the undo history.
    fn snapshot(&self) -> (r: Snapshot)
        ensures
            r.model() == self.state_model(),
    {
        Snapshot {
            board: self.board,
            to_move: self.to_move,
            unplaced_white: self.unplaced_white,
            unplaced_black: self.unplaced_black,
            removed_white: self.removed_white,
            removed_black: self.removed_black,
            must_remove: self.must_remove,
        }
    }

    /// The unplaced-piece counter of `color`.
    fn unplaced_count(&self, color: Color) -> (r: u8)
        ensures
            r as nat == unplaced_of(self.state_model(), color),
    {
        match color {
            Color::White => self.unplaced_white,
            Color::Black => self.unplaced_black,
        }
    }

    /// How many points hold a piece of `color`.
    fn count_pieces(&self, color: Color) -> (r: u8)
        ensures
            r as int == count_color(self.board@, color),
            r <= 24,
    {
        let mut count: u8 = 0;
        let mut i: usize = 0;
        while i < 24
            invariant
                0 <= i <= 24,
                count <= i,
                count as int == count_upto(self.board@, color, i as int),
            decreases 24 - i,
        {
            if cell_is(self.board[i], color) {
                count = count + 1;
            }
            i = i + 1;
        }
        count
    }

    /// Whether `color` has a completed mill through `point`.
    fn forms_mill(&self, point: usize, color: Color) -> (r: bool)
        requires
            point < POINTS,
        ensures
            r == forms_mill_spec(self.board@, point as int, color),
    {
        let mut i: usize = 0;
        while i < MILLS
            invariant
                0 <= i <= MILLS,
                forall|j: int|
                    0 <= j < i ==> !(crate::board::mill_has(j, point as int) && #[trigger]
                    mill_filled(self.board@, j, color)),
            decreases MILLS - i,
        {
            let (a, b, c) = mill_triple(i);
            if (a == point || b == point || c == point) && cell_is(self.board[a], color)
                && cell_is(self.board[b], color) && cell_is(self.board[c], color) {
                assert(crate::board::mill_has(i as int, point as int) && mill_filled(
                    self.board@,
                    i as int,
                    color,
                ));
                return true;
            }
            i = i + 1;
        }
        false
    }

    /// Whether the piece at `point` (if any) is part of a completed mill.
    fn point_in_mill(&self, point: usize) -> (r: bool)
        requires
            point < POINTS,
        ensures
            r == point_in_mill_spec(self.board@, point as int),
    {
        match self.board[point] {
            Some(color) => self.forms_mill(point, color),
            None => false,
        }
    }

    /// Whether every piece of `color` on the board is part of a mill.
    fn all_pieces_in_mills(&self, color: Color) -> (r: bool)
        ensures
            r == all_in_mills_spec(self.board@, color),
    {
        let mut i: usize = 0;
        while i < 24
            invariant
                0 <= i <= 24,
                forall|j: int|
                    0 <= j < i && self.board@[j] == Some(color) ==> #[trigger] point_in_mill_spec(
                        self.board@,
                        j,
                    ),
            decreases 24 - i,
        {
            if cell_is(self.board[i], color) && !self.point_in_mill(i) {
                return false;
            }
            i = i + 1;
        }
        true
    }

    /// Whether any piece of `victim` may be captured right now.
    fn can_remove_any(&self, victim: Color) -> (r: bool)
        ensures
            r == can_remove_any_spec(self.board@, victim),
    {
        let all_in_mills = self.all_pieces_in_mills(victim);
        let mut i: usize = 0;
        while i < 24
            invariant
                0 <= i <= 24,
                all_in_mills == all_in_mills_spec(self.board@, victim),
                forall|j: int| 0 <= j < i ==> !#[trigger] removable_spec(self.board@, victim, j),
            decreases 24 - i,
        {
            if cell_is(self.board[i], victim) && (all_in_mills || !self.point_in_mill(i)) {
                assert(removable_spec(self.board@, victim, i as int));
                return true;
            }
            i = i + 1;
        }
        false
    }

    /// Whether the board has an empty point.
    fn has_empty_point(&self) -> (r: bool)
        ensures
            r == has_empty(self.board@),
    {
        let mut i: usize = 0;
        while i < 24
            invariant
                0 <= i <= 24,
                forall|j: int| 0 <= j < i ==> !((#[trigger] self.board@[j]) is None),
            decreases 24 - i,
        {
            if cell_empty(self.board[i]) {
                return true;
            }
            i = i + 1;
        }
        false
    }

    /// Whether `color` has a piece on the board.
    fn has_own_piece(&self, color: Color) -> (r: bool)
        ensures
            r == has_piece(self.board@, color),
    {
        let mut i: usize = 0;
        while i < 24
            invariant
                0 <= i <= 24,
                forall|j: int| 0 <= j < i ==> (#[trigger] self.board@[j]) != Some(color),
            decreases 24 - i,
        {
            if cell_is(self.board[i], color) {
                return true;
            }
            i = i + 1;
        }
        false
    }

    /// Whether `player` has any legal placement or movement available.
    fn player_can_move(&self, player: Player) -> (r: bool)
        ensures
            r == can_act_for(self.state_model(), player),
    {
        if self.unplaced_count(player) > 0 {
            return self.has_empty_point();
        }
        let pieces = self.count_pieces(player);
        if pieces == 3 {
            let has_own = self.has_own_piece(player);
            let has_free = self.has_empty_point();
            return has_own && has_free;
        }
        let mut from: usize = 0;
        while from < 24
            invariant
                0 <= from <= 24,
                count_color(self.board@, player) != 3,
                unplaced_of(self.state_model(), player) == 0,
                forall|j: int| 0 <= j < from ==> !#[trigger] can_move_from(self.board@, player, j),
            decreases 24 - from,
        {
            if cell_is(self.board[from], player) {
                let (n0, n1, n2, n3) = neighbors(from);
                if n0 < 24 && cell_empty(self.board[n0]) {
                    assert(can_move_from(self.board@, player, from as int));
                    return true;
                }
                if n1 < 24 && cell_empty(self.board[n1]) {
                    assert(can_move_from(self.board@, player, from as int));
                    return true;
                }
                if n2 < 24 && cell_empty(self.board[n2]) {
                    assert(can_move_from(self.board@, player, from as int));
                    return true;
                }
                if n3 < 24 && cell_empty(self.board[n3]) {
                    assert(can_move_from(self.board@, player, from as int));
                    return true;
                }
            }
            proof {
                if can_move_from(self.board@, player, from as int) {
                    let t = choose|t: int|
                        0 <= t < 24 && crate::board::adjacent_spec(from as int, t) && (
                        #[trigger] self.board@[t]) is None;
                    assert(false);
                }
            }
            from = from + 1;
        }
        false
    }
}

impl NmmGame for Game {
    closed spec fn model(&self) -> GameModel {
        GameModel {
            state: self.state_model(),
            history: self.history@.map_values(|s: Snapshot| s.model()),
        }
    }

    fn new() -> (g: Self) {
        let g = Game {
            board: [None; 24],
            to_move: Color::White,
            unplaced_white: 9,
            unplaced_black: 9,
            removed_white: 0,
            removed_black: 0,
            must_remove: None,
            history: Vec::new(),
        };
        proof {
            lemma_count_zero_on_empty(g.state_model().board, Color::White, 24);
            lemma_count_zero_on_empty(g.state_model().board, Color::Black, 24);
            assert(g.state_model().board =~= initial_state().board);
            assert(g.model().history =~= initial_game().history);
        }
        g
    }

    fn action(&mut self, action: Action) -> (r: Result<(), &'static str>) {
        let ghost pre = self.model();
        if let Some(waiting) = self.must_remove {
            // A removal is owed: only that exact player's Remove is accepted.
            if action.player != waiting {
                return Err("This player must remove");
            }
            match action.action {
                ActionKind::Remove(p) => {
                    if p >= 24 {
                        return Err("Point out of range");
                    }
                    let opponent = action.player.opposite();
                    if !cell_is(self.board[p], opponent) {
                        return Err("Can only remove opponent piece");
                    }
                    if !self.all_pieces_in_mills(opponent) && self.point_in_mill(p) {
                        return Err("Cannot remove a piece in a mill");
                    }
                    proof {
                        assert(remove_ok(pre.state, action.player, p as int));
                        lemma_removed_bounded(pre.state, opponent);
                    }
                    let snap = self.snapshot();
                    self.history.push(snap);
                    self.board[p] = None;
                    match opponent {
                        Color::White => {
                            self.removed_white = self.removed_white + 1;
                        },
                        Color::Black => {
                            self.removed_black = self.removed_black + 1;
                        },
                    }
                    self.must_remove = None;
                    self.to_move = opponent;
                    proof {
                        assert(self.state_model() == after_remove(pre.state, action.player, p as int));
                        lemma_apply_preserves_inv(pre.state, action);
                        assert(self.model().history =~= pre.history.push(pre.state));
                    }
                    Ok(())
                },
                _ => Err("Must remove a piece"),
            }
        } else {
            if action.player != self.to_move {
                return Err("Not this player's turn");
            }
            match action.action {
                ActionKind::Place(p) => {
                    if p >= 24 {
                        return Err("Point out of range");
                    }
                    if self.unplaced_count(action.player) == 0 {
                        return Err("No pieces left to place");
                    }
                    if !cell_empty(self.board[p]) {
                        return Err("Point already occupied");
                    }
                    proof {
                        assert(place_ok(pre.state, action.player, p as int));
                    }
                    let snap = self.snapshot();
                    self.history.push(snap);
                    self.board[p] = Some(action.player);
                    match action.player {
                        Color::White => {
                            self.unplaced_white = self.unplaced_white - 1;
                        },
                        Color::Black => {
                            self.unplaced_black = self.unplaced_black - 1;
                        },
                    }
                    let ghost placed = self.state_model();
                    if self.forms_mill(p, action.player) {
                        let opponent = action.player.opposite();
                        if self.can_remove_any(opponent) {
                            self.must_remove = Some(action.player);
                        } else {
                            self.to_move = opponent;
                        }
                    } else {
                        self.to_move = action.player.opposite();
                    }
                    proof {
                        assert(self.state_model() == settle(placed, action.player, p as int));
                        assert(self.state_model() == after_place(pre.state, action.player, p as int));
                        lemma_apply_preserves_inv(pre.state, action);
                        assert(self.model().history =~= pre.history.push(pre.state));
                    }
                    Ok(())
                },
                ActionKind::Move(from, to) => {
                    if from >= 24 || to >= 24 {
                        return Err("Point out of range");
                    }
                    if self.unplaced_count(action.player) > 0 {
                        return Err("Must place all pieces before moving");
                    }
                    if !cell_is(self.board[from], action.player) {
                        return Err("No piece of this player at source");
                    }
                    if !cell_empty(self.board[to]) {
                        return Err("Destination not empty");
                    }
                    let flying = self.count_pieces(action.player) == 3;
                    if !flying && !are_adjacent(from, to) {
                        return Err("Points not adjacent");
                    }
                    proof {
                        assert(move_ok(pre.state, action.player, from as int, to as int));
                    }
                    let snap = self.snapshot();
                    self.history.push(snap);
                    self.board[from] = None;
                    self.board[to] = Some(action.player);
                    let ghost moved = self.state_model();
                    if self.forms_mill(to, action.player) {
                        let opponent = action.player.opposite();
                        if self.can_remove_any(opponent) {
                            self.must_remove = Some(action.player);
                        } else {
                            self.to_move = opponent;
                        }
                    } else {
                        self.to_move = action.player.opposite();
                    }
                    proof {
                        assert(self.state_model() == settle(moved, action.player, to as int));
                        assert(self.state_model() == after_move(
                            pre.state,
                            action.player,
                            from as int,
                            to as int,
                        ));
                        lemma_apply_preserves_inv(pre.state, action);
                        assert(self.model().history =~= pre.history.push(pre.state));
                    }
                    Ok(())
                },
                ActionKind::Remove(_) => Err("Remove not allowed now"),
            }
        }
    }

    fn undo(&mut self) -> (r: Result<(), &'static str>) {
        let ghost pre = self.model();
        if let Some(snap) = self.history.pop() {
            self.board = snap.board;
            self.to_move = snap.to_move;
            self.unplaced_white = snap.unplaced_white;
            self.unplaced_black = snap.unplaced_black;
            self.removed_white = snap.removed_white;
            self.removed_black = snap.removed_black;
            self.must_remove = snap.must_remove;
            proof {
                assert(self.model().history =~= undo_game(pre).history);
                assert(self.model().state == undo_game(pre).state);
            }
            Ok(())
        } else {
            Err("No action to undo")
        }
    }

    fn points(&self) -> (r: &[Option<Piece>; 24]) {
        &self.board
    }

    fn winner(&self) -> (r: Option<Player>) {
        if self.removed_black >= 7 {
            return Some(Color::White);
        }
        if self.removed_white >= 7 {
            return Some(Color::Black);
        }
        if !self.player_can_move(self.to_move) {
            return Some(self.to_move.opposite());
        }
        None
    }
}

/// A board of all-empty points holds no piece of any color.
proof fn lemma_count_zero_on_empty(b: Seq<Option<Color>>, c: Color, n: int)
    requires
        0 <= n <= b.len(),
        forall|i: int| 0 <= i < b.len() ==> (#[trigger] b[i]) is None,
    ensures
        count_upto(b, c, n) == 0,
    decreases n,
{
    if n > 0 {
        lemma_count_zero_on_empty(b, c, n - 1);
    }
}

/// Under the conservation invariant, at most nine pieces of a color have been
/// removed, so its counter cannot overflow a byte.
proof fn lemma_removed_bounded(s: StateModel, c: Color)
    requires
        crate::model::state_inv(s),
    ensures
        crate::model::removed_of(s, c) <= 9,
{
    lemma_count_upto_bounds(s.board, c, s.board.len() as int);
}

} // verus!

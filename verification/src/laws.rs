//! Laws of the engine, proved once and for all over the ghost model. The
//! contracts of `NmmGame` tie every executable `Game` to that model, so these
//! statements carry over to every run of the engine.

use vstd::prelude::*;

use crate::model::{
    after_remove, all_in_mills_spec, apply_all, apply_game, apply_spec, count_color, move_ok,
    point_in_mill_spec, removable_spec, state_inv, undo_game, undo_n, unplaced_of, removed_of,
    GameModel, StateModel,
};
use crate::types::{opp, Action, ActionKind, Color};

verus! {

/// Piece conservation: in every state satisfying the invariant — and the
/// engine's contracts show every reachable state does — each color's nine
/// pieces split exactly into unplaced, on the board, and captured.
pub proof fn lemma_piece_conservation(s: StateModel, c: Color)
    requires
        state_inv(s),
    ensures
        unplaced_of(s, c) + count_color(s.board, c) + removed_of(s, c) == 9,
{
}

/// Undo is the inverse of acting: after any sequence of successful actions,
/// the same number of undos returns the game, history included, to where it
/// started.
pub proof fn lemma_undo_inverse(m: GameModel, acts: Seq<Action>)
    requires
        apply_all(m, acts) is Some,
    ensures
        undo_n(apply_all(m, acts)->Some_0, acts.len()) == m,
    decreases acts.len(),
{
    if acts.len() == 0 {
    } else {
        let m2 = apply_game(m, acts[0])->Some_0;
        lemma_undo_inverse(m2, acts.drop_first());
        let w = apply_all(m, acts)->Some_0;
        assert(undo_n(w, acts.len()) == undo_game(undo_n(w, (acts.len() - 1) as nat)));
        assert(undo_n(w, (acts.len() - 1) as nat) == m2);
        assert(m2.history.last() == m.state);
        assert(m2.history.drop_last() =~= m.history);
        assert(undo_game(m2) == m);
    }
}

/// The mill-protection rule, rejecting half: while the victim still has a
/// piece outside every mill, a `Remove` aimed at a piece inside a mill is
/// rejected.
pub proof fn lemma_mill_protection_rejects(s: StateModel, player: Color, p: usize)
    requires
        p < 24,
        point_in_mill_spec(s.board, p as int),
        exists|q: int|
            0 <= q < 24 && s.board[q] == Some(opp(player)) && !(#[trigger] point_in_mill_spec(
                s.board,
                q,
            )),
    ensures
        apply_spec(s, Action { player, action: ActionKind::Remove(p) }) is None,
{
    let q = choose|q: int|
        0 <= q < 24 && s.board[q] == Some(opp(player)) && !point_in_mill_spec(s.board, q);
    assert(!all_in_mills_spec(s.board, opp(player)));
}

/// The mill-protection rule, permitting half: once every piece of the victim
/// sits in a mill, any of them may be removed, and the removal succeeds.
pub proof fn lemma_all_in_mills_allows_any(s: StateModel, player: Color, p: usize)
    requires
        s.must_remove == Some(player),
        p < 24,
        s.board.len() == 24,
        s.board[p as int] == Some(opp(player)),
        all_in_mills_spec(s.board, opp(player)),
    ensures
        apply_spec(s, Action { player, action: ActionKind::Remove(p) }) == Some(
            after_remove(s, player, p as int),
        ),
{
    assert(removable_spec(s.board, opp(player), p as int));
}

/// The flying rule, permitting half: a player down to exactly three pieces,
/// on their movement turn, may move to any empty point, adjacent or not.
pub proof fn lemma_flying_move_succeeds(s: StateModel, player: Color, from: usize, to: usize)
    requires
        s.must_remove is None,
        s.to_move == player,
        unplaced_of(s, player) == 0,
        from < 24,
        to < 24,
        s.board[from as int] == Some(player),
        s.board[to as int] is None,
        count_color(s.board, player) == 3,
    ensures
        apply_spec(s, Action { player, action: ActionKind::Move(from, to) }) is Some,
{
    assert(move_ok(s, player, from as int, to as int));
}

/// The flying rule, rejecting half: with four or more pieces on the board, a
/// move to a non-adjacent point is rejected.
pub proof fn lemma_grounded_move_needs_adjacency(
    s: StateModel,
    player: Color,
    from: usize,
    to: usize,
)
    requires
        count_color(s.board, player) != 3,
        !crate::board::adjacent_spec(from as int, to as int),
    ensures
        apply_spec(s, Action { player, action: ActionKind::Move(from, to) }) is None,
{
}

} // verus!

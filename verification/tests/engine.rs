use nmm::{Action, ActionKind, Color, Game, NmmGame};

fn act(game: &mut Game, text: &str) -> Result<(), &'static str> {
    let action: Action = text.parse().expect("test action must parse");
    game.action(action)
}

fn play(game: &mut Game, script: &[&str]) {
    for step in script {
        act(game, step).expect(step);
    }
}

#[test]
fn test_board_new_is_empty() {
    let game = Game::new();
    for pos in *game.points() {
        assert_eq!(pos, None);
    }
}

#[test]
fn first_placement_passes_turn_to_black() {
    let mut game = Game::new();
    act(&mut game, "W P 0").unwrap();
    assert_eq!(game.points()[0], Some(Color::White));
    // It is Black's turn now: another White action is rejected.
    assert_eq!(act(&mut game, "W P 5"), Err("Not this player's turn"));
    act(&mut game, "B P 1").unwrap();
    assert_eq!(game.points()[1], Some(Color::Black));
}

#[test]
fn mill_during_placement_demands_removal() {
    let mut game = Game::new();
    play(&mut game, &["W P 0", "B P 10", "W P 2", "B P 11", "W P 3"]);
    // No mill yet ([2,3,4] lacks 4), so play alternates normally.
    play(&mut game, &["B P 20", "W P 4"]);
    // White completed mill [2,3,4]: a removal is owed, nothing else goes.
    assert_eq!(act(&mut game, "B P 12"), Err("This player must remove"));
    assert_eq!(act(&mut game, "W P 5"), Err("Must remove a piece"));
    assert_eq!(act(&mut game, "B R 0"), Err("This player must remove"));
    assert_eq!(act(&mut game, "W R 24"), Err("Point out of range"));
    assert_eq!(act(&mut game, "W R 23"), Err("Can only remove opponent piece"));
    assert_eq!(act(&mut game, "W R 4"), Err("Can only remove opponent piece"));
    act(&mut game, "W R 11").unwrap();
    assert_eq!(game.points()[11], None);
    // Turn passed to the captured side.
    act(&mut game, "B P 12").unwrap();
}

#[test]
fn mill_protection_guards_pieces_in_mills() {
    let mut game = Game::new();
    play(
        &mut game,
        &["W P 0", "B P 20", "W P 1", "B P 16", "W P 4", "B P 17", "W P 5", "B P 18"],
    );
    // Black completed [16,17,18] and captures a White piece outside any mill.
    play(&mut game, &["B R 5", "W P 2"]);
    // White completed [0,1,2]; Black still has 20 outside its mill, so the
    // mill pieces are protected.
    let before: Vec<Option<Color>> = game.points().to_vec();
    assert_eq!(act(&mut game, "W R 17"), Err("Cannot remove a piece in a mill"));
    let after: Vec<Option<Color>> = game.points().to_vec();
    assert_eq!(before, after);
    // The unprotected piece goes.
    act(&mut game, "W R 20").unwrap();
    assert_eq!(game.points()[20], None);
}

#[test]
fn rejected_removal_leaves_no_phantom_snapshot() {
    let mut game = Game::new();
    play(
        &mut game,
        &["W P 0", "B P 20", "W P 1", "B P 16", "W P 4", "B P 17", "W P 5", "B P 18", "B R 5",
            "W P 2"],
    );
    assert_eq!(act(&mut game, "W R 17"), Err("Cannot remove a piece in a mill"));
    act(&mut game, "W R 20").unwrap();
    // Undo the removal, then the mill-forming placement: the rejected removal
    // must not have pushed a snapshot of its own.
    game.undo().unwrap();
    assert_eq!(game.points()[20], Some(Color::Black));
    game.undo().unwrap();
    assert_eq!(game.points()[2], None);
}

#[test]
fn rejection_is_a_no_op() {
    let mut game = Game::new();
    // Wrong player, before anything happened.
    assert!(act(&mut game, "B P 0").is_err());
    for pos in *game.points() {
        assert_eq!(pos, None);
    }
    // No snapshot was taken for the rejected action.
    assert_eq!(game.undo(), Err("No action to undo"));
    act(&mut game, "W P 0").unwrap();
    let before: Vec<Option<Color>> = game.points().to_vec();
    // A volley of illegal actions, each leaving the state untouched.
    assert_eq!(act(&mut game, "B P 0"), Err("Point already occupied"));
    assert_eq!(act(&mut game, "B P 24"), Err("Point out of range"));
    assert_eq!(act(&mut game, "B M 0 1"), Err("Must place all pieces before moving"));
    assert_eq!(act(&mut game, "B R 0"), Err("Remove not allowed now"));
    let after: Vec<Option<Color>> = game.points().to_vec();
    assert_eq!(before, after);
    // The game goes on as if nothing happened.
    act(&mut game, "B P 1").unwrap();
}

#[test]
fn out_of_range_points_are_rejected() {
    let mut game = Game::new();
    assert_eq!(act(&mut game, "W P 24"), Err("Point out of range"));
    assert_eq!(act(&mut game, "W P 1000"), Err("Point out of range"));
    let huge = Action { player: Color::White, action: ActionKind::Place(usize::MAX) };
    assert_eq!(game.action(huge), Err("Point out of range"));
    for pos in *game.points() {
        assert_eq!(pos, None);
    }
}

#[test]
fn undo_reverses_a_whole_game() {
    let mut game = Game::new();
    let script = ["W P 0", "B P 10", "W P 2", "B P 11", "W P 3", "B P 20", "W P 4", "W R 11"];
    play(&mut game, &script);
    for _ in 0..script.len() {
        game.undo().unwrap();
    }
    for pos in *game.points() {
        assert_eq!(pos, None);
    }
    assert_eq!(game.undo(), Err("No action to undo"));
    // The restored game starts over as a fresh one.
    act(&mut game, "W P 0").unwrap();
    assert_eq!(game.winner(), None);
}

#[test]
fn movement_rules_apply_after_placement() {
    let mut game = Game::new();
    // Place all nine pieces per side without ever forming a mill: White takes
    // even points, Black odd ones plus 18, 20, 22; no mill triple is all-even.
    play(
        &mut game,
        &["W P 0", "B P 1", "W P 2", "B P 3", "W P 4", "B P 5", "W P 6", "B P 7", "W P 8",
            "B P 9", "W P 10", "B P 11", "W P 12", "B P 18", "W P 14", "B P 20", "W P 16",
            "B P 22"],
    );
    // Placement is over.
    assert_eq!(act(&mut game, "W P 13"), Err("No pieces left to place"));
    assert_eq!(act(&mut game, "W M 24 13"), Err("Point out of range"));
    assert_eq!(act(&mut game, "W M 0 24"), Err("Point out of range"));
    assert_eq!(act(&mut game, "W M 3 13"), Err("No piece of this player at source"));
    assert_eq!(act(&mut game, "W M 0 2"), Err("Destination not empty"));
    // 8 is adjacent to 9, 15, 16 only; 13 is not adjacent to it.
    assert_eq!(act(&mut game, "W M 8 13"), Err("Points not adjacent"));
    act(&mut game, "W M 12 13").unwrap();
    assert_eq!(game.points()[12], None);
    assert_eq!(game.points()[13], Some(Color::White));
}

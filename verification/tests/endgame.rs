use nmm::{Action, Color, Game, NmmGame};

fn act(game: &mut Game, text: &str) -> Result<(), &'static str> {
    let action: Action = text.parse().expect("test action must parse");
    game.action(action)
}

fn play(game: &mut Game, script: &[&str]) {
    for step in script {
        act(game, step).expect(step);
    }
}

fn count(game: &Game, color: Color) -> usize {
    game.points().iter().filter(|p| **p == Some(color)).count()
}

/// A full placement in which every White piece ends up with every neighbor
/// occupied, no side ever forms a mill, and White is to move with nine
/// pieces (so no flying).
const STARVED_WHITE: [&str; 18] = [
    "W P 1", "B P 0", "W P 2", "B P 3", "W P 4", "B P 5", "W P 6", "B P 9", "W P 7", "B P 15",
    "W P 8", "B P 18", "W P 16", "B P 19", "W P 17", "B P 21", "W P 23", "B P 22",
];

/// A game in which White builds a see-saw between mills [0,1,2] and [8,9,10]
/// (swinging between points 1 and 9) while Black shuttles between 16 and 17,
/// losing a piece to every swing. Ends with five Black pieces captured,
/// Black to move, the White swinger on 1 and the Black shuttle on 17.
const SWING_PREFIX: [&str; 30] = [
    "W P 0", "B P 16", "W P 2", "B P 18", "W P 4", "B P 20", "W P 6", "B P 22", "W P 8", "B P 3",
    "W P 10", "B P 5", "W P 12", "B P 7", "W P 14", "B P 11", "W P 1", "W R 3", "B P 13",
    "W M 1 9", "W R 5", "B M 16 17", "W M 9 1", "W R 7", "B M 17 16", "W M 1 9", "W R 11",
    "B M 16 17", "W M 9 1", "W R 13",
];

#[test]
fn starvation_ends_the_game() {
    let mut game = Game::new();
    play(&mut game, &STARVED_WHITE[..17]);
    // Black still has a placement left: no winner yet.
    assert_eq!(game.winner(), None);
    act(&mut game, STARVED_WHITE[17]).unwrap();
    // White is to move with nine pieces and no reachable empty point.
    assert_eq!(count(&game, Color::White), 9);
    assert_eq!(game.winner(), Some(Color::Black));
}

#[test]
fn capturing_seven_pieces_wins() {
    let mut game = Game::new();
    play(&mut game, &SWING_PREFIX);
    assert_eq!(game.winner(), None);
    play(&mut game, &["B M 17 16", "W M 1 9", "W R 18", "B M 16 17", "W M 9 1", "W R 20"]);
    // Seven Black pieces are gone: White wins on the removal count.
    assert_eq!(count(&game, Color::White), 9);
    assert_eq!(count(&game, Color::Black), 2);
    assert_eq!(game.winner(), Some(Color::White));
}

#[test]
fn flying_needs_exactly_three_pieces() {
    let mut game = Game::new();
    play(&mut game, &SWING_PREFIX);
    // Black has four pieces: a non-adjacent move is rejected.
    assert_eq!(act(&mut game, "B M 20 3"), Err("Points not adjacent"));
    play(&mut game, &["B M 17 16", "W M 1 9", "W R 18"]);
    // Down to three pieces, Black flies to a far empty point.
    assert_eq!(count(&game, Color::Black), 3);
    act(&mut game, "B M 16 3").unwrap();
    assert_eq!(game.points()[3], Some(Color::Black));
    assert_eq!(game.points()[16], None);
}

#[test]
fn pieces_are_conserved_through_a_game() {
    let mut game = Game::new();
    // White has placed 9 and never loses a piece; Black placed 9 and lost 5
    // by the end of the prefix: unplaced + on board + captured stays 9.
    let mut black_captured = 0;
    for (i, step) in SWING_PREFIX.iter().enumerate() {
        act(&mut game, step).expect(step);
        if step.starts_with("W R") {
            black_captured += 1;
        }
        let black_placed = SWING_PREFIX[..=i].iter().filter(|s| s.starts_with("B P")).count();
        assert_eq!(count(&game, Color::Black) + black_captured, black_placed);
        let white_placed = SWING_PREFIX[..=i].iter().filter(|s| s.starts_with("W P")).count();
        assert_eq!(count(&game, Color::White), white_placed);
    }
    assert_eq!(count(&game, Color::White), 9);
    assert_eq!(count(&game, Color::Black), 4);
    assert_eq!(black_captured, 5);
}

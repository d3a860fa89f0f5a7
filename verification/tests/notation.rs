use nmm::{Action, ActionKind, Color};

fn parsed(text: &str) -> Action {
    text.parse().expect(text)
}

#[test]
fn parses_the_three_action_kinds() {
    assert_eq!(
        parsed("W P 0"),
        Action { player: Color::White, action: ActionKind::Place(0) }
    );
    assert_eq!(
        parsed("B M 0 1"),
        Action { player: Color::Black, action: ActionKind::Move(0, 1) }
    );
    assert_eq!(
        parsed("W R 5"),
        Action { player: Color::White, action: ActionKind::Remove(5) }
    );
}

#[test]
fn formatting_round_trips() {
    for text in ["W P 0", "B M 0 1", "W R 5", "B P 23", "W M 21 22", "B R 17"] {
        let action = parsed(text);
        assert_eq!(action.to_text(), text);
        assert_eq!(action.to_text().parse::<Action>(), Ok(action));
    }
}

#[test]
fn parsing_normalizes_whitespace_and_sign() {
    assert_eq!(parsed("  W \t P \n 13 "), parsed("W P 13"));
    assert_eq!(parsed("W P +7"), parsed("W P 7"));
    assert_eq!(parsed("W P +7").to_text(), "W P 7");
    // Trailing tokens after a place or removal are ignored.
    assert_eq!(parsed("W P 0 extra"), parsed("W P 0"));
    assert_eq!(parsed("B R 5 6"), parsed("B R 5"));
}

#[test]
fn large_points_survive_the_notation() {
    let action = parsed("W P 12345678901");
    assert_eq!(action, Action { player: Color::White, action: ActionKind::Place(12345678901) });
    assert_eq!(action.to_text(), "W P 12345678901");
}

#[test]
fn malformed_text_is_rejected() {
    assert_eq!("".parse::<Action>(), Err("Invalid action format"));
    assert_eq!("W P".parse::<Action>(), Err("Invalid action format"));
    assert_eq!("X P 0".parse::<Action>(), Err("Invalid player"));
    assert_eq!("WW P 0".parse::<Action>(), Err("Invalid player"));
    assert_eq!("W Z 0".parse::<Action>(), Err("Invalid action type"));
    assert_eq!("W PP 0".parse::<Action>(), Err("Invalid action type"));
    assert_eq!("W P abc".parse::<Action>(), Err("Invalid point"));
    assert_eq!("W P -1".parse::<Action>(), Err("Invalid point"));
    assert_eq!("W P +".parse::<Action>(), Err("Invalid point"));
    assert_eq!("W P 18446744073709551616".parse::<Action>(), Err("Invalid point"));
    assert_eq!("W M 1".parse::<Action>(), Err("Invalid move format"));
    assert_eq!("W M 1 2 3".parse::<Action>(), Err("Invalid move format"));
    assert_eq!("W M x 2".parse::<Action>(), Err("Invalid from point"));
    assert_eq!("W M 1 y".parse::<Action>(), Err("Invalid to point"));
    assert_eq!("W R".parse::<Action>(), Err("Invalid action format"));
}

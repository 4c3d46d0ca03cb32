use robot_journey::Movement::{F, L};
use robot_journey::{
    journey, journeys, robot_state, run, Direction, ErrorKind, Journey, Location, MalformedCoordinate,
    Movement, ParseError, RobotState,
};

fn error(kind: ErrorKind, at: usize) -> ParseError {
    ParseError { kind, at }
}

#[test]
fn parse_robot_state() {
    let at = Location { x: 1, y: 2 };
    let facing = Direction::N;
    assert_eq!(robot_state("1 2 N"), Ok(("", RobotState { at, facing })));
}

#[test]
fn parse_journey() {
    let input = "0 3 W\n\
        LLFFFLFLFL\n\
        2 4 S";

    let moves = vec![L, L, F, F, F, L, F, L, F, L];

    let expected = Journey {
        start: RobotState::new(0, 3, Direction::W),
        moves,
        end: RobotState::new(2, 4, Direction::S),
    };

    assert_eq!(journey(input), Ok(("", expected)));
}

const THREE_JOURNEYS: &str = "1 1 E\nRFRFRFRF\n1 1 E\n\n3 2 N\nFRRFLLFFRRFLL\n3 3 N\n\n0 3 W\nLLFFFLFLFL\n2 4 S\n";

#[test]
fn parse_journeys() {
    let actual = journeys(THREE_JOURNEYS);
    let num_journeys = actual.map(|js| js.len());
    assert_eq!(num_journeys, Ok(3));
}

#[test]
fn journeys_keep_order_and_content() {
    let js = journeys(THREE_JOURNEYS).unwrap();
    assert_eq!(js[0].start, RobotState::new(1, 1, Direction::E));
    assert_eq!(js[1].start, RobotState::new(3, 2, Direction::N));
    assert_eq!(js[1].moves.len(), 13);
    assert_eq!(js[2].end, RobotState::new(2, 4, Direction::S));
    let ends: Vec<RobotState> = js.iter().map(run).collect();
    assert_eq!(ends[0], RobotState::new(1, 1, Direction::E));
    assert_eq!(ends[1], RobotState::new(3, 3, Direction::N));
    assert_eq!(ends[2], RobotState::new(2, 4, Direction::S));
}

#[test]
fn journeys_separated_by_single_newline() {
    let input = "1 1 E\nF\n2 1 E\n0 0 N\nL\n0 0 W";
    let js = journeys(input).unwrap();
    assert_eq!(js.len(), 2);
    assert_eq!(js[1].end, RobotState::new(0, 0, Direction::W));
}

#[test]
fn several_spaces_and_leading_zeros() {
    let js = journeys("007   12  N\nF\n7 13 N\n").unwrap();
    assert_eq!(js[0].start, RobotState::new(7, 12, Direction::N));
}

#[test]
fn largest_coordinate_is_accepted() {
    let js = journeys("32767 0 N\nL\n32767 0 W").unwrap();
    assert_eq!(js[0].start, RobotState::new(32767, 0, Direction::N));
}

#[test]
fn end_to_end_hand_traced_journey() {
    let js = journeys("0 3 W\nLLFFFLFLFL\n2 4 S").unwrap();
    assert_eq!(js.len(), 1);
    assert_eq!(js[0].start, RobotState::new(0, 3, Direction::W));
    assert_eq!(run(&js[0]), RobotState::new(2, 4, Direction::S));
}

#[test]
fn end_to_end_closed_square() {
    let js = journeys("1 1 E\nRFRFRFRF\n1 1 E").unwrap();
    assert_eq!(js.len(), 1);
    assert_eq!(run(&js[0]), RobotState::new(1, 1, Direction::E));
}

#[test]
fn unrecognized_movement_is_a_hard_failure() {
    assert_eq!(
        journeys("1 2 N\nFRX\n1 3 N"),
        Err(error(ErrorKind::UnrecognizedMovement, 8))
    );
}

#[test]
fn empty_movement_line_is_rejected() {
    assert_eq!(
        journeys("1 2 N\n\n1 3 N"),
        Err(error(ErrorKind::UnrecognizedMovement, 6))
    );
}

#[test]
fn trailing_garbage_is_rejected() {
    assert_eq!(
        journeys("1 1 E\nRFRFRFRF\n1 1 E\nxyz"),
        Err(error(ErrorKind::TrailingInput, 21))
    );
    assert_eq!(
        journeys("1 1 E\nRFRFRFRF\n1 1 Exyz"),
        Err(error(ErrorKind::TrailingInput, 20))
    );
    assert_eq!(
        journeys("1 1 E\nRFRFRFRF\n1 1 E\n\n\n"),
        Err(error(ErrorKind::TrailingInput, 21))
    );
}

#[test]
fn malformed_coordinates_are_rejected() {
    assert_eq!(
        journeys("a 2 N\nF\n1 1 N"),
        Err(error(ErrorKind::MalformedCoordinate, 0))
    );
    assert_eq!(
        journeys("40000 2 N\nF\n1 1 N"),
        Err(error(ErrorKind::MalformedCoordinate, 0))
    );
    assert_eq!(
        journeys("-1 2 N\nF\n1 1 N"),
        Err(error(ErrorKind::MalformedCoordinate, 0))
    );
    assert_eq!(
        journeys("12x 2 N\nF\n1 1 N"),
        Err(error(ErrorKind::MalformedCoordinate, 2))
    );
}

#[test]
fn unrecognized_direction_is_rejected() {
    assert_eq!(
        journeys("1 2 X\nF\n1 1 N"),
        Err(error(ErrorKind::UnrecognizedDirection, 4))
    );
    assert_eq!(
        journeys("1 2 N\nF\n1 1 Q"),
        Err(error(ErrorKind::UnrecognizedDirection, 12))
    );
}

#[test]
fn incomplete_journeys_are_rejected() {
    assert_eq!(journeys(""), Err(error(ErrorKind::IncompleteJourney, 0)));
    assert_eq!(journeys("1 2 N"), Err(error(ErrorKind::IncompleteJourney, 5)));
    assert_eq!(journeys("1 2 N\nFF"), Err(error(ErrorKind::IncompleteJourney, 8)));
    assert_eq!(journeys("1 2 N\nFF\n"), Err(error(ErrorKind::IncompleteJourney, 9)));
    assert_eq!(
        journeys("1 2 N\n1 2 N\nFF\n1 4 N"),
        Err(error(ErrorKind::IncompleteJourney, 6))
    );
}

#[test]
fn journey_returns_rest_of_text() {
    let (rest, j) = journey("1 2 N\nF\n1 3 N\n\n0 0 E").unwrap();
    assert_eq!(rest, "\n0 0 E");
    assert_eq!(j.moves, vec![Movement::F]);
}

#[test]
fn robot_state_returns_rest_of_text() {
    assert_eq!(
        robot_state("10 20 S\nF"),
        Ok(("\nF", RobotState::new(10, 20, Direction::S)))
    );
    assert_eq!(
        robot_state("10 20"),
        Err(error(ErrorKind::MalformedCoordinate, 5))
    );
}

#[test]
fn location_from_coordinate_strings() {
    assert_eq!(Location::from("3", "42"), Ok(Location { x: 3, y: 42 }));
    assert_eq!(Location::from("32767", "0"), Ok(Location { x: 32767, y: 0 }));
    assert_eq!(Location::from("32768", "0"), Err(MalformedCoordinate));
    assert_eq!(Location::from("", "1"), Err(MalformedCoordinate));
    assert_eq!(Location::from("1", "2a"), Err(MalformedCoordinate));
}

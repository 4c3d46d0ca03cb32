use vstd::prelude::*;

use crate::journey::{Journey, Movement};

verus! {

/// One of the four compass headings.
#[derive(Debug, Clone, Copy, PartialEq, Eq, Structural)]
pub enum Direction {
    N,
    E,
    S,
    W,
}

/// The character that stands for no heading.
#[derive(Debug, Clone, Copy, PartialEq, Eq, Structural)]
pub struct UnrecognizedDirection;

/// A grid position; coordinates may go below zero.
#[derive(Debug, Clone, Copy, PartialEq, Eq, Structural)]
pub struct Location {
    pub x: i16,
    pub y: i16,
}

/// Position and heading of the robot at one moment.
#[derive(Debug, Clone, Copy, PartialEq, Eq, Structural)]
pub struct RobotState {
    pub at: Location,
    pub facing: Direction,
}

/// A move would take a coordinate outside the range of `i16`.
#[derive(Debug, Clone, Copy, PartialEq, Eq, Structural)]
pub struct CoordinateOverflow;

/// A robot state over unbounded integers.
pub struct Pose {
    pub x: int,
    pub y: int,
    pub facing: Direction,
}

impl View for RobotState {
    type V = Pose;

    open spec fn view(&self) -> Pose {
        Pose { x: self.at.x as int, y: self.at.y as int, facing: self.facing }
    }
}

/// The heading written as one character.
pub open spec fn direction_of(c: char) -> Option<Direction> {
    if c == 'N' {
        Some(Direction::N)
    } else if c == 'E' {
        Some(Direction::E)
    } else if c == 'S' {
        Some(Direction::S)
    } else if c == 'W' {
        Some(Direction::W)
    } else {
        None
    }
}

/// The character that stands for a heading.
pub open spec fn symbol_of(d: Direction) -> char {
    match d {
        Direction::N => 'N',
        Direction::E => 'E',
        Direction::S => 'S',
        Direction::W => 'W',
    }
}

/// The heading after a quarter turn to the left.
pub open spec fn turn_left(d: Direction) -> Direction {
    match d {
        Direction::N => Direction::W,
        Direction::E => Direction::N,
        Direction::S => Direction::E,
        Direction::W => Direction::S,
    }
}

/// The heading after a quarter turn to the right.
pub open spec fn turn_right(d: Direction) -> Direction {
    match d {
        Direction::N => Direction::E,
        Direction::E => Direction::S,
        Direction::S => Direction::W,
        Direction::W => Direction::N,
    }
}

/// The pose after one movement.
pub open spec fn advance(p: Pose, m: Movement) -> Pose {
    match m {
        Movement::F => match p.facing {
            Direction::N => Pose { y: p.y + 1, ..p },
            Direction::E => Pose { x: p.x + 1, ..p },
            Direction::S => Pose { y: p.y - 1, ..p },
            Direction::W => Pose { x: p.x - 1, ..p },
        },
        Movement::L => Pose { facing: turn_left(p.facing), ..p },
        Movement::R => Pose { facing: turn_right(p.facing), ..p },
    }
}

/// The pose after all movements, applied left to right.
pub open spec fn follow(p: Pose, moves: Seq<Movement>) -> Pose
    decreases moves.len(),
{
    if moves.len() == 0 {
        p
    } else {
        advance(follow(p, moves.drop_last()), moves.last())
    }
}

/// Both coordinates fit in an `i16`.
pub open spec fn fits(p: Pose) -> bool {
    &&& i16::MIN <= p.x <= i16::MAX
    &&& i16::MIN <= p.y <= i16::MAX
}

/// Every pose that the robot passes through fits in an `i16`.
pub open spec fn stays_in_range(p: Pose, moves: Seq<Movement>) -> bool {
    forall|i: int| 0 <= i <= moves.len() ==> #[trigger] fits(follow(p, moves.take(i)))
}

impl Direction {
    /// Reads a heading from its character.
    pub fn lookup(ch: char) -> (r: Result<Direction, UnrecognizedDirection>)
        ensures
            match direction_of(ch) {
                Some(d) => r == Ok::<Direction, UnrecognizedDirection>(d),
                None => r is Err,
            },
    {
        match ch {
            'N' => Ok(Direction::N),
            'E' => Ok(Direction::E),
            'S' => Ok(Direction::S),
            'W' => Ok(Direction::W),
            _ => Err(UnrecognizedDirection),
        }
    }

    /// The character that stands for this heading.
    pub fn symbol(&self) -> (c: char)
        ensures
            c == symbol_of(*self),
    {
        match self {
            Direction::N => 'N',
            Direction::E => 'E',
            Direction::S => 'S',
            Direction::W => 'W',
        }
    }
}

impl RobotState {
    /// The state at `(x, y)`, facing `facing`.
    pub fn new(x: i16, y: i16, facing: Direction) -> (r: RobotState)
        ensures
            r.at.x == x,
            r.at.y == y,
            r.facing == facing,
    {
        RobotState { at: Location { x, y }, facing }
    }

    /// Whether one movement keeps both coordinates within `i16`.
    pub fn can_move(&self, m: Movement) -> (b: bool)
        ensures
            b == fits(advance(self@, m)),
    {
        match (m, self.facing) {
            (Movement::F, Direction::N) => self.at.y < i16::MAX,
            (Movement::F, Direction::E) => self.at.x < i16::MAX,
            (Movement::F, Direction::S) => self.at.y > i16::MIN,
            (Movement::F, Direction::W) => self.at.x > i16::MIN,
            _ => true,
        }
    }

    /// The state after one movement.
    pub fn moved(&self, m: Movement) -> (r: RobotState)
        requires
            fits(advance(self@, m)),
        ensures
            r@ == advance(self@, m),
    {
        let x: i16 = self.at.x;
        let y: i16 = self.at.y;
        match (m, self.facing) {
            (Movement::F, Direction::N) => RobotState::new(x, y + 1, Direction::N),
            (Movement::F, Direction::E) => RobotState::new(x + 1, y, Direction::E),
            (Movement::F, Direction::S) => RobotState::new(x, y - 1, Direction::S),
            (Movement::F, Direction::W) => RobotState::new(x - 1, y, Direction::W),
            (Movement::L, Direction::N) => RobotState::new(x, y, Direction::W),
            (Movement::L, Direction::E) => RobotState::new(x, y, Direction::N),
            (Movement::L, Direction::S) => RobotState::new(x, y, Direction::E),
            (Movement::L, Direction::W) => RobotState::new(x, y, Direction::S),
            (Movement::R, Direction::N) => RobotState::new(x, y, Direction::E),
            (Movement::R, Direction::E) => RobotState::new(x, y, Direction::S),
            (Movement::R, Direction::S) => RobotState::new(x, y, Direction::W),
            (Movement::R, Direction::W) => RobotState::new(x, y, Direction::N),
        }
    }
}

/// Replays the journey's movements from its start state and returns where the robot ends.
pub fn run(journey: &Journey) -> (r: RobotState)
    requires
        stays_in_range(journey.start@, journey.moves@),
    ensures
        r@ == follow(journey.start@, journey.moves@),
{
    let mut state = journey.start;
    let mut i: usize = 0;
    while i < journey.moves.len()
        invariant
            i <= journey.moves@.len(),
            stays_in_range(journey.start@, journey.moves@),
            state@ == follow(journey.start@, journey.moves@.take(i as int)),
        decreases journey.moves@.len() - i,
    {
        proof {
            lemma_follow_prefix(journey.start@, journey.moves@, i as int);
        }
        state = state.moved(journey.moves[i]);
        i = i + 1;
    }
    assert(journey.moves@.take(i as int) == journey.moves@);
    state
}

/// Like `run`, but fails where a coordinate would leave the range of `i16`.
pub fn simulate(journey: &Journey) -> (r: Result<RobotState, CoordinateOverflow>)
    ensures
        r is Ok <==> stays_in_range(journey.start@, journey.moves@),
        r matches Ok(s) ==> s@ == follow(journey.start@, journey.moves@),
{
    let mut state = journey.start;
    let mut i: usize = 0;
    while i < journey.moves.len()
        invariant
            i <= journey.moves@.len(),
            state@ == follow(journey.start@, journey.moves@.take(i as int)),
            forall|k: int| 0 <= k <= i ==> #[trigger] fits(follow(journey.start@, journey.moves@.take(k))),
        decreases journey.moves@.len() - i,
    {
        proof {
            lemma_follow_prefix(journey.start@, journey.moves@, i as int);
        }
        let m: Movement = journey.moves[i];
        if !state.can_move(m) {
            assert(!fits(follow(journey.start@, journey.moves@.take(i + 1))));
            return Err(CoordinateOverflow);
        }
        state = state.moved(m);
        i = i + 1;
    }
    assert(journey.moves@.take(i as int) == journey.moves@);
    Ok(state)
}

/// Taking one more movement from a prefix advances the pose by that movement.
proof fn lemma_follow_prefix(p: Pose, moves: Seq<Movement>, i: int)
    requires
        0 <= i < moves.len(),
    ensures
        follow(p, moves.take(i + 1)) == advance(follow(p, moves.take(i)), moves[i]),
{
    assert(moves.take(i + 1).drop_last() == moves.take(i));
}

/// A left turn followed by a right turn, or the other way round, leaves the pose as it was.
pub proof fn lemma_turns_cancel(p: Pose)
    ensures
        advance(advance(p, Movement::L), Movement::R) == p,
        advance(advance(p, Movement::R), Movement::L) == p,
{
}

/// Four right turns, or four left turns, bring the robot back to its heading.
pub proof fn lemma_four_turns(p: Pose)
    ensures
        follow(p, seq![Movement::R, Movement::R, Movement::R, Movement::R]) == p,
        follow(p, seq![Movement::L, Movement::L, Movement::L, Movement::L]) == p,
{
    reveal_with_fuel(follow, 5);
    assert(seq![Movement::R, Movement::R, Movement::R, Movement::R].drop_last() =~= seq![Movement::R, Movement::R, Movement::R]);
    assert(seq![Movement::R, Movement::R, Movement::R].drop_last() =~= seq![Movement::R, Movement::R]);
    assert(seq![Movement::R, Movement::R].drop_last() =~= seq![Movement::R]);
    assert(seq![Movement::R].drop_last() =~= Seq::<Movement>::empty());
    assert(seq![Movement::L, Movement::L, Movement::L, Movement::L].drop_last() =~= seq![Movement::L, Movement::L, Movement::L]);
    assert(seq![Movement::L, Movement::L, Movement::L].drop_last() =~= seq![Movement::L, Movement::L]);
    assert(seq![Movement::L, Movement::L].drop_last() =~= seq![Movement::L]);
    assert(seq![Movement::L].drop_last() =~= Seq::<Movement>::empty());
}

/// A forward move keeps the heading and changes exactly one coordinate by one,
/// in the direction the robot faces.
pub proof fn lemma_forward(p: Pose)
    ensures
        advance(p, Movement::F).facing == p.facing,
        p.facing == Direction::N ==> advance(p, Movement::F).x == p.x && advance(p, Movement::F).y
            == p.y + 1,
        p.facing == Direction::E ==> advance(p, Movement::F).x == p.x + 1 && advance(p, Movement::F).y
            == p.y,
        p.facing == Direction::S ==> advance(p, Movement::F).x == p.x && advance(p, Movement::F).y
            == p.y - 1,
        p.facing == Direction::W ==> advance(p, Movement::F).x == p.x - 1 && advance(p, Movement::F).y
            == p.y,
        one_step_apart(p, advance(p, Movement::F)),
{
}

/// The two poses differ in exactly one coordinate, and there by one.
pub open spec fn one_step_apart(p: Pose, q: Pose) -> bool {
    ||| q.x == p.x && (q.y == p.y + 1 || q.y == p.y - 1)
    ||| q.y == p.y && (q.x == p.x + 1 || q.x == p.x - 1)
}

/// With no movements the robot ends where it started.
pub proof fn lemma_no_moves(p: Pose)
    ensures
        follow(p, Seq::<Movement>::empty()) == p,
{
}

/// Every heading reads back from its own character, and every character that
/// reads as a heading is that heading's character.
pub proof fn lemma_direction_round_trip(d: Direction, c: char)
    ensures
        direction_of(symbol_of(d)) == Some(d),
        direction_of(c) matches Some(e) ==> symbol_of(e) == c,
{
}

} // verus!

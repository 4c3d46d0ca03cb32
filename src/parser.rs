use vstd::prelude::*;

use crate::journey::{movement_of, movements_in, views, Journey, JourneyView, Movement};
use crate::robot::{direction_of, Direction, Location, RobotState};
use crate::text::{chars_of, decimal, decimal_in, is_digit};

verus! {

/// What went wrong in a journeys text.
#[derive(Debug, Clone, Copy, PartialEq, Eq, Structural)]
pub enum ErrorKind {
    /// A coordinate is not a run of digits that fits the coordinate type,
    /// or is not followed by a space.
    MalformedCoordinate,
    /// A heading is missing, or is not one of `N`, `E`, `S`, `W`.
    UnrecognizedDirection,
    /// A movement line holds a character other than `F`, `R`, `L`.
    UnrecognizedMovement,
    /// The text ends, or a state line begins, where a journey still needs a line.
    IncompleteJourney,
    /// Text is left after the last journey.
    TrailingInput,
}

/// A parse failure and the character offset where it was found.
#[derive(Debug, Clone, Copy, PartialEq, Eq, Structural)]
pub struct ParseError {
    pub kind: ErrorKind,
    pub at: usize,
}

/// A coordinate string that is not a decimal number fitting an `i16`.
#[derive(Debug, Clone, Copy, PartialEq, Eq, Structural)]
pub struct MalformedCoordinate;

/// The error of the given kind at character offset `at`.
pub open spec fn fail(kind: ErrorKind, at: int) -> ParseError {
    ParseError { kind, at: at as usize }
}

/// The end of the run of digits that starts at `p`.
pub open spec fn digits_end(s: Seq<char>, p: int) -> int
    decreases s.len() - p,
{
    if 0 <= p < s.len() && is_digit(s[p]) {
        digits_end(s, p + 1)
    } else {
        p
    }
}

/// The end of the run of spaces that starts at `p`.
pub open spec fn spaces_end(s: Seq<char>, p: int) -> int
    decreases s.len() - p,
{
    if 0 <= p < s.len() && s[p] == ' ' {
        spaces_end(s, p + 1)
    } else {
        p
    }
}

/// The end of the run of movement characters that starts at `p`.
pub open spec fn moves_end(s: Seq<char>, p: int) -> int
    decreases s.len() - p,
{
    if 0 <= p < s.len() && movement_of(s[p]) is Some {
        moves_end(s, p + 1)
    } else {
        p
    }
}

/// A coordinate at `p` and the spaces after it: its value and the position past the spaces.
pub open spec fn coordinate_at(s: Seq<char>, p: int) -> Result<(i16, int), ParseError> {
    let q = digits_end(s, p);
    if q == p || decimal(s.subrange(p, q)) > i16::MAX {
        Err(fail(ErrorKind::MalformedCoordinate, p))
    } else if spaces_end(s, q) == q {
        Err(fail(ErrorKind::MalformedCoordinate, q))
    } else {
        Ok((decimal(s.subrange(p, q)) as i16, spaces_end(s, q)))
    }
}

/// A state `x y d` at `p`: the state and the position just past its heading.
pub open spec fn robot_state_at(s: Seq<char>, p: int) -> Result<(RobotState, int), ParseError> {
    if p >= s.len() {
        Err(fail(ErrorKind::IncompleteJourney, p))
    } else {
        match coordinate_at(s, p) {
            Err(e) => Err(e),
            Ok((x, q)) => match coordinate_at(s, q) {
                Err(e) => Err(e),
                Ok((y, r)) => if r < s.len() && direction_of(s[r]) is Some {
                    Ok((RobotState { at: Location { x, y }, facing: direction_of(s[r])->0 }, r + 1))
                } else {
                    Err(fail(ErrorKind::UnrecognizedDirection, r))
                },
            },
        }
    }
}

/// The movement line at `m`: the position of the newline that ends it.
pub open spec fn movement_line_at(s: Seq<char>, m: int) -> Result<int, ParseError> {
    if m >= s.len() || is_digit(s[m]) {
        Err(fail(ErrorKind::IncompleteJourney, m))
    } else if movement_of(s[m]) is None {
        Err(fail(ErrorKind::UnrecognizedMovement, m))
    } else if moves_end(s, m) >= s.len() {
        Err(fail(ErrorKind::IncompleteJourney, moves_end(s, m)))
    } else if s[moves_end(s, m)] != '\n' {
        Err(fail(ErrorKind::UnrecognizedMovement, moves_end(s, m)))
    } else {
        Ok(moves_end(s, m))
    }
}

/// One journey at `p`, with the newline that may end it: the journey and the position past it.
pub open spec fn journey_at(s: Seq<char>, p: int) -> Result<(JourneyView, int), ParseError> {
    match robot_state_at(s, p) {
        Err(e) => Err(e),
        Ok((start, a)) => if a >= s.len() {
            Err(fail(ErrorKind::IncompleteJourney, a))
        } else if s[a] != '\n' {
            Err(fail(ErrorKind::UnrecognizedDirection, a))
        } else {
            match movement_line_at(s, a + 1) {
                Err(e) => Err(e),
                Ok(n) => match robot_state_at(s, n + 1) {
                    Err(e) => Err(e),
                    Ok((end, b)) => {
                        let j = JourneyView { start, moves: movements_in(s.subrange(a + 1, n)), end };
                        if b < s.len() && s[b] == '\n' {
                            Ok((j, b + 1))
                        } else {
                            Ok((j, b))
                        }
                    },
                },
            }
        },
    }
}

/// The journeys from `p` to the end of the text.
///
/// After a journey the text ends, or it ends in a newline and the next journey
/// follows, with one blank line before it at most. A journey is taken to begin
/// where a digit stands; anything else is left over.
pub open spec fn journeys_from(s: Seq<char>, p: int) -> Result<Seq<JourneyView>, ParseError>
    decreases s.len() - p,
{
    match journey_at(s, p) {
        Err(e) => Err(e),
        Ok((j, q)) => {
            let r = if q < s.len() && s[q] == '\n' {
                q + 1
            } else {
                q
            };
            if q >= s.len() {
                Ok(seq![j])
            } else if s[q - 1] == '\n' && r < s.len() && is_digit(s[r]) {
                proof {
                    lemma_journey_advances(s, p);
                }
                match journeys_from(s, r) {
                    Err(e) => Err(e),
                    Ok(js) => Ok(seq![j] + js),
                }
            } else {
                Err(fail(ErrorKind::TrailingInput, q))
            }
        },
    }
}

/// The journeys that a whole text describes.
pub open spec fn parse_journeys(s: Seq<char>) -> Result<Seq<JourneyView>, ParseError> {
    journeys_from(s, 0)
}

proof fn lemma_digits_end(s: Seq<char>, p: int)
    ensures
        digits_end(s, p) >= p,
    decreases s.len() - p,
{
    if 0 <= p < s.len() && is_digit(s[p]) {
        lemma_digits_end(s, p + 1);
    }
}

proof fn lemma_spaces_end(s: Seq<char>, p: int)
    ensures
        spaces_end(s, p) >= p,
    decreases s.len() - p,
{
    if 0 <= p < s.len() && s[p] == ' ' {
        lemma_spaces_end(s, p + 1);
    }
}

proof fn lemma_moves_end(s: Seq<char>, p: int)
    ensures
        moves_end(s, p) >= p,
    decreases s.len() - p,
{
    if 0 <= p < s.len() && movement_of(s[p]) is Some {
        lemma_moves_end(s, p + 1);
    }
}

proof fn lemma_robot_state_advances(s: Seq<char>, p: int)
    ensures
        robot_state_at(s, p) matches Ok((st, q)) ==> q > p,
{
    lemma_digits_end(s, p);
    lemma_spaces_end(s, digits_end(s, p));
    if let Ok((x, q)) = coordinate_at(s, p) {
        lemma_digits_end(s, q);
        lemma_spaces_end(s, digits_end(s, q));
    }
}

/// A journey that parses takes up at least one character.
pub proof fn lemma_journey_advances(s: Seq<char>, p: int)
    ensures
        journey_at(s, p) matches Ok((j, q)) ==> q > p,
{
    lemma_robot_state_advances(s, p);
    if let Ok((st, a)) = robot_state_at(s, p) {
        lemma_moves_end(s, a + 1);
        if let Ok(n) = movement_line_at(s, a + 1) {
            lemma_robot_state_advances(s, n + 1);
        }
    }
}

/// The value of a coordinate string: a non-empty run of decimal digits that fits an `i16`.
pub open spec fn coordinate_value(s: Seq<char>) -> Option<i16> {
    if s.len() > 0 && (forall|k: int| 0 <= k < s.len() ==> is_digit(#[trigger] s[k])) && decimal(s)
        <= i16::MAX {
        Some(decimal(s) as i16)
    } else {
        None
    }
}

impl Location {
    /// Reads a location from its two coordinate strings.
    pub fn from(x: &str, y: &str) -> (r: Result<Location, MalformedCoordinate>)
        ensures
            match (coordinate_value(x@), coordinate_value(y@)) {
                (Some(a), Some(b)) => r == Ok::<Location, MalformedCoordinate>((Location { x: a, y: b })),
                _ => r is Err,
            },
    {
        let a: Option<i16> = coordinate_in(x);
        let b: Option<i16> = coordinate_in(y);
        match (a, b) {
            (Some(x), Some(y)) => Ok(Location { x, y }),
            _ => Err(MalformedCoordinate),
        }
    }
}

fn coordinate_in(text: &str) -> (r: Option<i16>)
    ensures
        r == coordinate_value(text@),
{
    let s = chars_of(text);
    let q: usize = scan_digits(&s, 0);
    if q == 0 || q < s.len() {
        return None;
    }
    assert(s@.subrange(0, q as int) == s@);
    decimal_in(&s, 0, q)
}

/// Text after a complete journey that does not begin another journey is
/// reported as trailing input, at the first character after the journey.
pub proof fn lemma_trailing_input(s: Seq<char>, p: int, j: JourneyView, q: int)
    requires
        journey_at(s, p) == Ok::<(JourneyView, int), ParseError>((j, q)),
        q < s.len(),
        !is_digit(s[q]),
        s[q] == '\n' ==> q + 1 == s.len() || !is_digit(s[q + 1]),
    ensures
        journeys_from(s, p) == Err::<Seq<JourneyView>, ParseError>(fail(ErrorKind::TrailingInput, q)),
{
}

/// Once a movement line has begun, a character on it that is no movement
/// fails the whole parse there; the line is never cut short.
pub proof fn lemma_movement_commits(s: Seq<char>, p: int, start: RobotState, a: int)
    requires
        robot_state_at(s, p) == Ok::<(RobotState, int), ParseError>((start, a)),
        a + 1 < s.len(),
        s[a] == '\n',
        movement_of(s[a + 1]) is Some,
        moves_end(s, a + 1) < s.len(),
        s[moves_end(s, a + 1)] != '\n',
    ensures
        journeys_from(s, p) == Err::<Seq<JourneyView>, ParseError>(
            fail(ErrorKind::UnrecognizedMovement, moves_end(s, a + 1)),
        ),
{
}

/// The journeys in `prefix` followed by those of `rest`, or the error of `rest`.
spec fn after(prefix: Seq<JourneyView>, rest: Result<Seq<JourneyView>, ParseError>) -> Result<
    Seq<JourneyView>,
    ParseError,
> {
    match rest {
        Ok(js) => Ok(prefix + js),
        Err(e) => Err(e),
    }
}

fn scan_digits(s: &Vec<char>, p: usize) -> (q: usize)
    requires
        p <= s@.len(),
    ensures
        q == digits_end(s@, p as int),
        p <= q <= s@.len(),
        forall|k: int| p <= k < q ==> is_digit(#[trigger] s@[k]),
        q < s@.len() ==> !is_digit(s@[q as int]),
{
    let mut i: usize = p;
    while i < s.len() && '0' <= s[i] && s[i] <= '9'
        invariant
            p <= i <= s@.len(),
            digits_end(s@, i as int) == digits_end(s@, p as int),
            forall|k: int| p <= k < i ==> is_digit(#[trigger] s@[k]),
        decreases s@.len() - i,
    {
        i = i + 1;
    }
    i
}

fn scan_spaces(s: &Vec<char>, p: usize) -> (q: usize)
    requires
        p <= s@.len(),
    ensures
        q == spaces_end(s@, p as int),
        p <= q <= s@.len(),
{
    let mut i: usize = p;
    while i < s.len() && s[i] == ' '
        invariant
            p <= i <= s@.len(),
            spaces_end(s@, i as int) == spaces_end(s@, p as int),
        decreases s@.len() - i,
    {
        i = i + 1;
    }
    i
}

fn scan_moves(s: &Vec<char>, p: usize) -> (q: usize)
    requires
        p <= s@.len(),
    ensures
        q == moves_end(s@, p as int),
        p <= q <= s@.len(),
{
    let mut i: usize = p;
    while i < s.len() && (s[i] == 'F' || s[i] == 'R' || s[i] == 'L')
        invariant
            p <= i <= s@.len(),
            moves_end(s@, i as int) == moves_end(s@, p as int),
        decreases s@.len() - i,
    {
        i = i + 1;
    }
    i
}

/// The movements written in `s[from..to]`.
fn read_moves(s: &Vec<char>, from: usize, to: usize) -> (r: Vec<Movement>)
    requires
        from <= to <= s@.len(),
    ensures
        r@ == movements_in(s@.subrange(from as int, to as int)),
{
    let mut r: Vec<Movement> = Vec::new();
    let mut i: usize = from;
    while i < to
        invariant
            from <= i <= to <= s@.len(),
            r@ == movements_in(s@.subrange(from as int, i as int)),
        decreases to - i,
    {
        assert(s@.subrange(from as int, i + 1).drop_last() == s@.subrange(from as int, i as int));
        if let Ok(m) = Movement::lookup(s[i]) {
            r.push(m);
        }
        i = i + 1;
    }
    r
}

fn read_coordinate(s: &Vec<char>, p: usize) -> (r: Result<(i16, usize), ParseError>)
    requires
        p <= s@.len(),
    ensures
        match r {
            Ok((v, q)) => q <= s@.len() && coordinate_at(s@, p as int) == Ok::<(i16, int), ParseError>(
                (v, q as int),
            ),
            Err(e) => coordinate_at(s@, p as int) == Err::<(i16, int), ParseError>(e),
        },
{
    let q: usize = scan_digits(s, p);
    if q == p {
        return Err(ParseError { kind: ErrorKind::MalformedCoordinate, at: p });
    }
    let value: i16 = match decimal_in(s, p, q) {
        Some(v) => v,
        None => {
            return Err(ParseError { kind: ErrorKind::MalformedCoordinate, at: p });
        },
    };
    let r: usize = scan_spaces(s, q);
    if r == q {
        return Err(ParseError { kind: ErrorKind::MalformedCoordinate, at: q });
    }
    Ok((value, r))
}

fn read_robot_state(s: &Vec<char>, p: usize) -> (r: Result<(RobotState, usize), ParseError>)
    requires
        p <= s@.len(),
    ensures
        match r {
            Ok((st, q)) => q <= s@.len() && robot_state_at(s@, p as int) == Ok::<
                (RobotState, int),
                ParseError,
            >((st, q as int)),
            Err(e) => robot_state_at(s@, p as int) == Err::<(RobotState, int), ParseError>(e),
        },
{
    if p >= s.len() {
        return Err(ParseError { kind: ErrorKind::IncompleteJourney, at: p });
    }
    let (x, q): (i16, usize) = read_coordinate(s, p)?;
    let (y, r): (i16, usize) = read_coordinate(s, q)?;
    if r < s.len() {
        if let Ok(facing) = Direction::lookup(s[r]) {
            return Ok((RobotState::new(x, y, facing), r + 1));
        }
    }
    Err(ParseError { kind: ErrorKind::UnrecognizedDirection, at: r })
}

fn read_journey(s: &Vec<char>, p: usize) -> (r: Result<(Journey, usize), ParseError>)
    requires
        p <= s@.len(),
    ensures
        match r {
            Ok((j, q)) => q <= s@.len() && journey_at(s@, p as int) == Ok::<(JourneyView, int), ParseError>(
                (j@, q as int),
            ),
            Err(e) => journey_at(s@, p as int) == Err::<(JourneyView, int), ParseError>(e),
        },
{
    let (start, a): (RobotState, usize) = read_robot_state(s, p)?;
    if a >= s.len() {
        return Err(ParseError { kind: ErrorKind::IncompleteJourney, at: a });
    }
    if s[a] != '\n' {
        return Err(ParseError { kind: ErrorKind::UnrecognizedDirection, at: a });
    }
    let m: usize = a + 1;
    if m >= s.len() || ('0' <= s[m] && s[m] <= '9') {
        return Err(ParseError { kind: ErrorKind::IncompleteJourney, at: m });
    }
    if Movement::lookup(s[m]).is_err() {
        return Err(ParseError { kind: ErrorKind::UnrecognizedMovement, at: m });
    }
    let n: usize = scan_moves(s, m);
    if n >= s.len() {
        return Err(ParseError { kind: ErrorKind::IncompleteJourney, at: n });
    }
    if s[n] != '\n' {
        return Err(ParseError { kind: ErrorKind::UnrecognizedMovement, at: n });
    }
    let moves = read_moves(s, m, n);
    let (end, b): (RobotState, usize) = read_robot_state(s, n + 1)?;
    let journey = Journey { start, moves, end };
    if b < s.len() && s[b] == '\n' {
        Ok((journey, b + 1))
    } else {
        Ok((journey, b))
    }
}

fn read_journeys(s: &Vec<char>) -> (r: Result<Vec<Journey>, ParseError>)
    ensures
        match r {
            Ok(v) => parse_journeys(s@) == Ok::<Seq<JourneyView>, ParseError>(views(v@)),
            Err(e) => parse_journeys(s@) == Err::<Seq<JourneyView>, ParseError>(e),
        },
{
    let mut out: Vec<Journey> = Vec::new();
    let mut p: usize = 0;
    loop
        invariant
            p <= s@.len(),
            parse_journeys(s@) == after(views(out@), journeys_from(s@, p as int)),
        decreases s@.len() - p,
    {
        let (j, q): (Journey, usize) = read_journey(s, p)?;
        proof {
            lemma_journey_advances(s@, p as int);
        }
        let ghost before = views(out@);
        out.push(j);
        assert(views(out@) =~= before.push(j@));
        if q >= s.len() {
            assert(before + seq![j@] =~= before.push(j@));
            return Ok(out);
        }
        let r: usize = if s[q] == '\n' {
            q + 1
        } else {
            q
        };
        if s[q - 1] == '\n' && r < s.len() && '0' <= s[r] && s[r] <= '9' {
            proof {
                if let Ok(js) = journeys_from(s@, r as int) {
                    assert(before + (seq![j@] + js) =~= before.push(j@) + js);
                }
            }
            p = r;
        } else {
            return Err(ParseError { kind: ErrorKind::TrailingInput, at: q });
        }
    }
}

/// Parses a whole journeys text.
pub fn journeys(input: &str) -> (r: Result<Vec<Journey>, ParseError>)
    ensures
        match r {
            Ok(v) => parse_journeys(input@) == Ok::<Seq<JourneyView>, ParseError>(views(v@)),
            Err(e) => parse_journeys(input@) == Err::<Seq<JourneyView>, ParseError>(e),
        },
{
    let s = chars_of(input);
    read_journeys(&s)
}

/// Parses one journey at the start of `input`, with the newline that may end it,
/// and returns the text after it.
pub fn journey<'a>(input: &'a str) -> (r: Result<(&'a str, Journey), ParseError>)
    ensures
        match r {
            Ok((rest, j)) => journey_at(input@, 0) matches Ok((jv, q)) && jv == j@ && rest@
                == input@.subrange(q, input@.len() as int),
            Err(e) => journey_at(input@, 0) == Err::<(JourneyView, int), ParseError>(e),
        },
{
    let s = chars_of(input);
    let (j, q): (Journey, usize) = read_journey(&s, 0)?;
    Ok((input.substring_char(q, s.len()), j))
}

/// Parses one state line `x y d` at the start of `input` and returns the text after it.
pub fn robot_state<'a>(input: &'a str) -> (r: Result<(&'a str, RobotState), ParseError>)
    ensures
        match r {
            Ok((rest, st)) => robot_state_at(input@, 0) matches Ok((v, q)) && v == st && rest@
                == input@.subrange(q, input@.len() as int),
            Err(e) => robot_state_at(input@, 0) == Err::<(RobotState, int), ParseError>(e),
        },
{
    let s = chars_of(input);
    let (st, q): (RobotState, usize) = read_robot_state(&s, 0)?;
    Ok((input.substring_char(q, s.len()), st))
}

} // verus!

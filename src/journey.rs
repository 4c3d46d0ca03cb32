use vstd::prelude::*;

use crate::robot::RobotState;
use crate::text::chars_of;

verus! {

/// A claimed start state, the movements made from it, and the claimed end state.
#[derive(Debug, Clone)]
pub struct Journey {
    pub start: RobotState,
    pub moves: Vec<Movement>,
    pub end: RobotState,
}

/// One movement command: forward, turn right, turn left.
#[derive(Debug, Clone, Copy, PartialEq, Eq, Structural)]
pub enum Movement {
    F,
    R,
    L,
}

/// The character that stands for no movement.
#[derive(Debug, Clone, Copy, PartialEq, Eq, Structural)]
pub struct UnrecognizedMovement;

/// A journey with its movements as a sequence.
pub struct JourneyView {
    pub start: RobotState,
    pub moves: Seq<Movement>,
    pub end: RobotState,
}

impl View for Journey {
    type V = JourneyView;

    open spec fn view(&self) -> JourneyView {
        JourneyView { start: self.start, moves: self.moves@, end: self.end }
    }
}

/// The views of a list of journeys.
pub open spec fn views(js: Seq<Journey>) -> Seq<JourneyView> {
    js.map_values(|j: Journey| j@)
}

/// The movement written as one character.
pub open spec fn movement_of(c: char) -> Option<Movement> {
    if c == 'F' {
        Some(Movement::F)
    } else if c == 'R' {
        Some(Movement::R)
    } else if c == 'L' {
        Some(Movement::L)
    } else {
        None
    }
}

/// The movements among the characters, in order; other characters are passed over.
pub open spec fn movements_in(s: Seq<char>) -> Seq<Movement>
    decreases s.len(),
{
    if s.len() == 0 {
        Seq::empty()
    } else {
        let init = movements_in(s.drop_last());
        match movement_of(s.last()) {
            Some(m) => init.push(m),
            None => init,
        }
    }
}

impl Movement {
    /// Reads a movement from its character.
    pub fn lookup(ch: char) -> (r: Result<Movement, UnrecognizedMovement>)
        ensures
            match movement_of(ch) {
                Some(m) => r == Ok::<Movement, UnrecognizedMovement>(m),
                None => r is Err,
            },
    {
        match ch {
            'F' => Ok(Movement::F),
            'R' => Ok(Movement::R),
            'L' => Ok(Movement::L),
            _ => Err(UnrecognizedMovement),
        }
    }

    /// The movements written in `s`; characters that are no movement are skipped.
    pub fn from(s: &str) -> (r: Vec<Movement>)
        ensures
            r@ == movements_in(s@),
    {
        let chars = chars_of(s);
        let mut r: Vec<Movement> = Vec::new();
        let mut i: usize = 0;
        while i < chars.len()
            invariant
                i <= chars@.len(),
                chars@ == s@,
                r@ == movements_in(chars@.take(i as int)),
            decreases chars@.len() - i,
        {
            assert(chars@.take(i + 1).drop_last() == chars@.take(i as int));
            if let Ok(m) = Movement::lookup(chars[i]) {
                r.push(m);
            }
            i = i + 1;
        }
        assert(chars@.take(i as int) == chars@);
        r
    }
}

impl PartialEq for Journey {
    fn eq(&self, other: &Journey) -> (r: bool) {
        if self.start != other.start || self.end != other.end || self.moves.len()
            != other.moves.len() {
            return false;
        }
        let mut i: usize = 0;
        while i < self.moves.len()
            invariant
                i <= self.moves@.len(),
                self.moves@.len() == other.moves@.len(),
                forall|k: int| 0 <= k < i ==> self.moves@[k] == other.moves@[k],
            decreases self.moves@.len() - i,
        {
            if self.moves[i] != other.moves[i] {
                return false;
            }
            i = i + 1;
        }
        assert(self.moves@ =~= other.moves@);
        true
    }
}

impl vstd::std_specs::cmp::PartialEqSpecImpl for Journey {
    open spec fn obeys_eq_spec() -> bool {
        true
    }

    open spec fn eq_spec(&self, other: &Journey) -> bool {
        self@ == other@
    }
}

} // verus!

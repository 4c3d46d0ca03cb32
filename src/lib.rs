//! Robot journeys: a parser for journey descriptions and a simulator that
//! replays each journey's movements from its start state.

pub mod journey;
pub mod parser;
pub mod robot;
pub mod text;

pub use journey::{Journey, Movement, UnrecognizedMovement};
pub use parser::{journey, journeys, robot_state, ErrorKind, MalformedCoordinate, ParseError};
pub use robot::{run, simulate, CoordinateOverflow, Direction, Location, RobotState, UnrecognizedDirection};

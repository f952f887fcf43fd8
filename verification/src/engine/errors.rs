//! The errors the engine reports.

use crate::engine::types::Coordinate;
use vstd::prelude::*;
use vstd::string::StringExecFns;

verus! {

/// Random placement gave up after too many attempts.
#[derive(Clone, Copy, Debug)]
pub struct RngTryError;

impl RngTryError {
    pub open spec fn spec_message() -> Seq<char> {
        "exceede max tries for rng"@
    }

    pub fn message(&self) -> (msg: String)
        ensures
            msg@ == Self::spec_message(),
    {
        String::from_str("exceede max tries for rng")
    }
}

/// No cell of the arena can take the footprint that was to be placed.
#[derive(Clone, Copy, Debug)]
pub struct NoLegalPosition;

impl NoLegalPosition {
    pub open spec fn spec_message() -> Seq<char> {
        "could not find a legal position"@
    }

    pub fn message(&self) -> (msg: String)
        ensures
            msg@ == Self::spec_message(),
    {
        String::from_str("could not find a legal position")
    }
}

/// A command that could not be turned into a legal action invocation.
#[derive(Debug)]
pub struct ParseError {
    input: String,
}

impl View for ParseError {
    type V = Seq<char>;

    closed spec fn view(&self) -> Seq<char> {
        self.input@
    }
}

impl ParseError {
    pub fn new(s: &str) -> (e: ParseError)
        ensures
            e@ == s@,
    {
        ParseError { input: String::from_str(s) }
    }

    pub fn input(&self) -> (s: &str)
        ensures
            s@ == self@,
    {
        self.input.as_str()
    }

    pub open spec fn spec_message(self) -> Seq<char> {
        "failed to parse input: "@ + self@
    }

    pub fn message(&self) -> (msg: String)
        ensures
            msg@ == self.spec_message(),
    {
        String::from_str("failed to parse input: ").concat(self.input.as_str())
    }
}

/// An absolute grid address with a negative component.
#[derive(Clone, Copy, Debug)]
pub struct NegativeAbsCoord {
    coord: Coordinate,
}

impl NegativeAbsCoord {
    /// The coordinate that was refused.
    pub closed spec fn spec_coord(self) -> Coordinate {
        self.coord
    }

    pub fn new(coord: Coordinate) -> (e: NegativeAbsCoord)
        ensures
            e.spec_coord() == coord,
    {
        NegativeAbsCoord { coord: coord }
    }

    pub fn coord(&self) -> (coord: Coordinate)
        ensures
            coord == self.spec_coord(),
    {
        self.coord
    }

    pub open spec fn spec_message(self) -> Seq<char> {
        "Got absolute coordinate with negative value: "@ + crate::engine::util::spec_coord_text(
            self.spec_coord(),
        )
    }

    pub fn message(&self) -> (msg: String)
        ensures
            msg@ == self.spec_message(),
    {
        String::from_str("Got absolute coordinate with negative value: ").concat(
            self.coord.to_text().as_str(),
        )
    }
}

/// An actor id that the roster does not hold.
#[derive(Clone, Copy, Debug)]
pub struct ActorNotFound;

impl ActorNotFound {
    pub open spec fn spec_message() -> Seq<char> {
        "Actor not found"@
    }

    pub fn message(&self) -> (msg: String)
        ensures
            msg@ == Self::spec_message(),
    {
        String::from_str("Actor not found")
    }
}

/// Why an actor could not be instantiated from its template.
#[derive(Clone, Copy, Debug, PartialEq, Eq)]
pub enum SpawnError {
    /// The hit-point dice and their constant came to more than the number
    /// type of the total holds.
    HitPointOverflow,
}

/// Why the actors of an encounter could not be generated.
#[derive(Debug)]
pub enum GenerateError {
    /// A team did not reach its challenge rating in the attempts it had.
    TooManyTries(RngTryError),
    /// A creature could not be instantiated.
    Spawn(SpawnError),
}

} // verus!

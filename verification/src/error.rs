//! All error values that handshake operations can produce.

use vstd::prelude::*;

verus! {

/// Reasons a requested pattern or modifier combination is rejected.
#[derive(Clone, Copy, Debug, PartialEq, Eq, Structural)]
pub enum PatternProblem {
    TooFewParameters,
    UnsupportedHandshakeType,
    UnsupportedBaseType,
    UnsupportedHashType,
    UnsupportedDhType,
    UnsupportedCipherType,
    InvalidPsk,
    UnsupportedModifier,
}

/// The stage of initialization at which an `Init` error arose.
#[derive(Clone, Copy, Debug, PartialEq, Eq, Structural)]
pub enum InitStage {
    ValidateKeyLengths,
    ValidatePskLengths,
    ValidateCipherTypes,
    GetRngImpl,
    GetDhImpl,
    GetCipherImpl,
    GetHashImpl,
    ValidatePskPosition,
}

/// A prerequisite that may be missing at construction.
#[derive(Clone, Copy, Debug, PartialEq, Eq, Structural)]
pub enum Prerequisite {
    LocalPrivateKey,
    RemotePublicKey,
}

/// Specific out-of-order uses of the state machine.
#[derive(Clone, Copy, Debug, PartialEq, Eq, Structural)]
pub enum StateProblem {
    MissingKeyMaterial,
    MissingPsk,
    NotTurnToWrite,
    NotTurnToRead,
    HandshakeNotFinished,
    HandshakeAlreadyFinished,
    OneWay,
    StatelessTransportMode,
}

/// Every failure a Noise operation can report.
#[derive(Clone, Copy, Debug, PartialEq, Eq, Structural)]
pub enum Error {
    /// The noise pattern failed to parse.
    Pattern(PatternProblem),
    /// Initialization failure, at a provided stage.
    Init(InitStage),
    /// Missing prerequisite.
    Prereq(Prerequisite),
    /// A state error.
    State(StateProblem),
    /// Invalid input.
    Input,
    /// Diffie-Hellman failed.
    Dh,
    /// Decryption failed.
    Decrypt,
}

impl Error {
    /// A short human-readable description of the error class.
    pub fn message(&self) -> (r: &'static str)
        ensures
            (*self is Pattern) ==> r@ == "pattern error"@,
            (*self is Init) ==> r@ == "initialization error"@,
            (*self is Prereq) ==> r@ == "prerequisite error"@,
            (*self is State) ==> r@ == "state error"@,
            (*self is Input) ==> r@ == "input error"@,
            (*self is Dh) ==> r@ == "diffie-hellman error"@,
            (*self is Decrypt) ==> r@ == "decrypt error"@,
    {
        match self {
            Error::Pattern(_) => "pattern error",
            Error::Init(_) => "initialization error",
            Error::Prereq(_) => "prerequisite error",
            Error::State(_) => "state error",
            Error::Input => "input error",
            Error::Dh => "diffie-hellman error",
            Error::Decrypt => "decrypt error",
        }
    }
}

impl From<PatternProblem> for Error {
    fn from(reason: PatternProblem) -> (r: Self) {
        Error::Pattern(reason)
    }
}

impl vstd::std_specs::convert::FromSpecImpl<PatternProblem> for Error {
    open spec fn obeys_from_spec() -> bool {
        true
    }

    open spec fn from_spec(reason: PatternProblem) -> Self {
        Error::Pattern(reason)
    }
}

impl From<InitStage> for Error {
    fn from(reason: InitStage) -> (r: Self) {
        Error::Init(reason)
    }
}

impl vstd::std_specs::convert::FromSpecImpl<InitStage> for Error {
    open spec fn obeys_from_spec() -> bool {
        true
    }

    open spec fn from_spec(reason: InitStage) -> Self {
        Error::Init(reason)
    }
}

impl From<Prerequisite> for Error {
    fn from(reason: Prerequisite) -> (r: Self) {
        Error::Prereq(reason)
    }
}

impl vstd::std_specs::convert::FromSpecImpl<Prerequisite> for Error {
    open spec fn obeys_from_spec() -> bool {
        true
    }

    open spec fn from_spec(reason: Prerequisite) -> Self {
        Error::Prereq(reason)
    }
}

impl From<StateProblem> for Error {
    fn from(reason: StateProblem) -> (r: Self) {
        Error::State(reason)
    }
}

impl vstd::std_specs::convert::FromSpecImpl<StateProblem> for Error {
    open spec fn obeys_from_spec() -> bool {
        true
    }

    open spec fn from_spec(reason: StateProblem) -> Self {
        Error::State(reason)
    }
}

} // verus!

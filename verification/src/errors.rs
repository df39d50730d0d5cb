use vstd::prelude::*;
use vstd::string::*;

verus! {

/// Errors of the coordinator.
#[derive(Debug)]
pub enum BitcoinCoordinatorError {
    /// The settings break a limit.
    InvalidConfiguration(String),
    /// A programmer error: a function was called outside its contract.
    Internal(String),
    /// The stored state breaks an invariant of the coordinator.
    InvariantViolation(String),
}

impl BitcoinCoordinatorError {
    /// An `InvalidConfiguration` with this message.
    pub open spec fn is_bad_configuration(self, message: Seq<char>) -> bool {
        self matches BitcoinCoordinatorError::InvalidConfiguration(m) && m@ == message
    }

    /// An `Internal` error with this message.
    pub open spec fn is_internal(self, message: Seq<char>) -> bool {
        self matches BitcoinCoordinatorError::Internal(m) && m@ == message
    }

    /// An `InvariantViolation` with this message.
    pub open spec fn is_violation(self, message: Seq<char>) -> bool {
        self matches BitcoinCoordinatorError::InvariantViolation(m) && m@ == message
    }

    /// The text of the error.
    pub open spec fn text(self) -> Seq<char> {
        match self {
            BitcoinCoordinatorError::InvalidConfiguration(m) => "Bad configuration: "@ + m@,
            BitcoinCoordinatorError::Internal(m) => "Internal error (programmer bug): "@ + m@,
            BitcoinCoordinatorError::InvariantViolation(m) => "Invariant violation: "@ + m@,
        }
    }

    /// The text of the error.
    pub fn to_text(&self) -> (r: String)
        ensures
            r@ == self.text(),
    {
        match self {
            BitcoinCoordinatorError::InvalidConfiguration(m) => {
                "Bad configuration: ".to_string().concat(m.as_str())
            },
            BitcoinCoordinatorError::Internal(m) => {
                "Internal error (programmer bug): ".to_string().concat(m.as_str())
            },
            BitcoinCoordinatorError::InvariantViolation(m) => {
                "Invariant violation: ".to_string().concat(m.as_str())
            },
        }
    }
}

} // verus!

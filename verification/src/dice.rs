//! The value types of the roller: a validated dice specification, the
//! outcome of a roll, and the usage errors with their messages.

use vstd::prelude::*;
use vstd::string::StringExecFns;

verus! {

/// A validated dice specification: `count` dice of `sides` sides each.
/// Only a successful notation parse constructs one, so both fields are
/// strictly positive.
#[derive(Clone, Copy, Debug, PartialEq, Eq, Structural)]
pub struct DiceSpec {
    pub count: u32,
    pub sides: u32,
}

impl DiceSpec {
    /// Well-formedness: both fields are strictly positive.
    pub open spec fn wf(self) -> bool {
        self.count >= 1 && self.sides >= 1
    }
}

/// The outcome of one invocation's rolling phase.
pub enum RollOutcome {
    /// The standard multi-die result: the rolls in draw order and their
    /// sum.
    Aggregate { rolls: Vec<u32>, total: u64 },
    /// The advantage/disadvantage result: both rolls and the one kept.
    Contest { roll1: u32, roll2: u32, chosen: u32 },
}

/// The ways one invocation can fail before anything is rolled.
#[derive(Clone, Copy, Debug, PartialEq, Eq, Structural)]
pub enum CliError {
    /// No dice notation was supplied.
    Usage,
    /// The notation does not match `<int>d<int>` with positive values.
    Format,
    /// Both advantage and disadvantage were requested.
    Conflict,
    /// Advantage or disadvantage was requested with a count other than
    /// two.
    ContestArity,
}

/// The message printed for each error; the usage message names the
/// program.
pub open spec fn message_spec(e: CliError, program: Seq<char>) -> Seq<char> {
    match e {
        CliError::Usage => "Usage: "@ + program + " <NdM> [-v]"@,
        CliError::Format => "Invalid dice format. Use {n}d{s}, e.g., 2d6 or 1d20."@,
        CliError::Conflict => "Thats not a thing."@,
        CliError::ContestArity => "Incorrect syntax! Roll 2d20 for advantage/disadvantage."@,
    }
}

impl CliError {
    /// Renders the error as the message the roller reports, with the
    /// program name filled into the usage message.
    pub fn message(&self, program: &str) -> (r: String)
        ensures
            r@ == message_spec(*self, program@),
    {
        match self {
            CliError::Usage => {
                let mut s = String::from_str("Usage: ");
                s.append(program);
                s.append(" <NdM> [-v]");
                proof {
                    assert(s@ =~= message_spec(CliError::Usage, program@));
                }
                s
            },
            CliError::Format => String::from_str(
                "Invalid dice format. Use {n}d{s}, e.g., 2d6 or 1d20.",
            ),
            CliError::Conflict => String::from_str("Thats not a thing."),
            CliError::ContestArity => String::from_str(
                "Incorrect syntax! Roll 2d20 for advantage/disadvantage.",
            ),
        }
    }
}

} // verus!

//! The argument interpreter: classifying command-line tokens into a
//! configuration, and validating the configuration into a dice
//! specification or a usage error.

use vstd::prelude::*;
use vstd::string::StrSliceExecFns;

use crate::dice::{CliError, DiceSpec};
use crate::notation::{parse_dice_arg, parse_notation};

verus! {

broadcast use vstd::string::group_string_axioms;

/// The option set read off the command line.
pub struct Config {
    pub verbose: bool,
    pub advantage: bool,
    pub disadvantage: bool,
    pub notation: Option<String>,
}

/// The token that turns verbose output on.
pub open spec fn is_verbose_flag(s: Seq<char>) -> bool {
    s == "-v"@ || s == "--verbose"@
}

/// The token that selects advantage mode.
pub open spec fn is_advantage_flag(s: Seq<char>) -> bool {
    s == "-a"@ || s == "--adv"@
}

/// The token that selects disadvantage mode.
pub open spec fn is_disadvantage_flag(s: Seq<char>) -> bool {
    s == "-d"@ || s == "--dis"@
}

/// Any recognized flag token.
pub open spec fn is_flag(s: Seq<char>) -> bool {
    is_verbose_flag(s) || is_advantage_flag(s) || is_disadvantage_flag(s)
}

/// The first token at or after position `i` that is not a flag: the one
/// captured as the dice notation.
pub open spec fn first_notation(args: Seq<String>, i: int) -> Option<Seq<char>>
    decreases args.len() - i,
{
    if i < 0 || i >= args.len() {
        None
    } else if is_flag(args[i]@) {
        first_notation(args, i + 1)
    } else {
        Some(args[i]@)
    }
}

/// No token is two different flags at once.
proof fn lemma_flag_kinds_disjoint(s: Seq<char>)
    ensures
        is_verbose_flag(s) ==> !is_advantage_flag(s) && !is_disadvantage_flag(s),
        is_advantage_flag(s) ==> !is_verbose_flag(s) && !is_disadvantage_flag(s),
        is_disadvantage_flag(s) ==> !is_verbose_flag(s) && !is_advantage_flag(s),
{
    reveal_strlit("-v");
    reveal_strlit("--verbose");
    reveal_strlit("-a");
    reveal_strlit("--adv");
    reveal_strlit("-d");
    reveal_strlit("--dis");
    assert("-v"@.len() == 2 && "-a"@.len() == 2 && "-d"@.len() == 2);
    assert("--verbose"@.len() == 9 && "--adv"@.len() == 5 && "--dis"@.len() == 5);
    assert("-v"@[1] == 'v' && "-a"@[1] == 'a' && "-d"@[1] == 'd');
    assert("--adv"@[2] == 'a' && "--dis"@[2] == 'd');
}

/// Character-by-character string equality, proved to decide equality of
/// the views.
fn str_eq(a: &str, b: &str) -> (r: bool)
    ensures
        r == (a@ == b@),
{
    let n = a.unicode_len();
    if n != b.unicode_len() {
        return false;
    }
    let mut i: usize = 0;
    while i < n
        invariant
            i <= n,
            n == a@.len(),
            n == b@.len(),
            forall|j: int| 0 <= j < i ==> a@[j] == b@[j],
        decreases n - i,
    {
        if a.get_char(i) != b.get_char(i) {
            return false;
        }
        i = i + 1;
    }
    proof {
        assert(a@ =~= b@);
    }
    true
}

/// Scans the command-line tokens (excluding the program name) into a
/// configuration: each flag is set exactly when some token spells it,
/// and the notation is the first token that is no flag; later non-flag
/// tokens are ignored.
pub fn interpret_args(args: &Vec<String>) -> (c: Config)
    ensures
        c.verbose <==> (exists|j: int|
            0 <= j < args@.len() && #[trigger] is_verbose_flag(args@[j]@)),
        c.advantage <==> (exists|j: int|
            0 <= j < args@.len() && #[trigger] is_advantage_flag(args@[j]@)),
        c.disadvantage <==> (exists|j: int|
            0 <= j < args@.len() && #[trigger] is_disadvantage_flag(args@[j]@)),
        match c.notation {
            Some(s) => first_notation(args@, 0) == Some(s@),
            None => first_notation(args@, 0) is None,
        },
{
    let mut verbose = false;
    let mut advantage = false;
    let mut disadvantage = false;
    let mut notation: Option<String> = None;
    let n = args.len();
    let mut i: usize = 0;
    while i < n
        invariant
            i <= n,
            n == args@.len(),
            verbose <==> (exists|j: int| 0 <= j < i && #[trigger] is_verbose_flag(args@[j]@)),
            advantage <==> (exists|j: int| 0 <= j < i && #[trigger] is_advantage_flag(args@[j]@)),
            disadvantage <==> (exists|j: int|
                0 <= j < i && #[trigger] is_disadvantage_flag(args@[j]@)),
            match notation {
                Some(s) => first_notation(args@, 0) == Some(s@),
                None => first_notation(args@, 0) == first_notation(args@, i as int),
            },
        decreases n - i,
    {
        let arg = &args[i];
        proof {
            lemma_flag_kinds_disjoint(arg@);
        }
        if str_eq(arg.as_str(), "-v") || str_eq(arg.as_str(), "--verbose") {
            verbose = true;
        } else if str_eq(arg.as_str(), "--adv") || str_eq(arg.as_str(), "-a") {
            advantage = true;
        } else if str_eq(arg.as_str(), "--dis") || str_eq(arg.as_str(), "-d") {
            disadvantage = true;
        } else if notation.is_none() {
            notation = Some(arg.clone());
        }
        i = i + 1;
    }
    Config { verbose, advantage, disadvantage, notation }
}

/// What validating a configuration yields, in the order the checks are
/// made: a mode conflict first, then a missing notation, then a
/// malformed notation, then a contest roll whose count is not two.
pub open spec fn spec_validate(c: Config) -> Result<DiceSpec, CliError> {
    if c.advantage && c.disadvantage {
        Err(CliError::Conflict)
    } else {
        match c.notation {
            None => Err(CliError::Usage),
            Some(s) => match parse_notation(s@) {
                None => Err(CliError::Format),
                Some((n, m)) => if (c.advantage || c.disadvantage) && n != 2 {
                    Err(CliError::ContestArity)
                } else {
                    Ok(DiceSpec { count: n, sides: m })
                },
            },
        }
    }
}

/// Checks a configuration and parses its notation: returns the dice
/// specification to roll, or the error to report, exactly as
/// `spec_validate` lays it down. A returned specification is always
/// well-formed, and in contest mode its count is two.
pub fn validate_config(c: &Config) -> (r: Result<DiceSpec, CliError>)
    ensures
        r == spec_validate(*c),
        r matches Ok(d) ==> d.wf() && ((c.advantage || c.disadvantage) ==> d.count == 2),
{
    if c.advantage && c.disadvantage {
        return Err(CliError::Conflict);
    }
    let arg = match &c.notation {
        Some(s) => s,
        None => {
            return Err(CliError::Usage);
        },
    };
    let (num, sides) = match parse_dice_arg(arg.as_str()) {
        Some(p) => p,
        None => {
            return Err(CliError::Format);
        },
    };
    if (c.advantage || c.disadvantage) && num != 2 {
        return Err(CliError::ContestArity);
    }
    Ok(DiceSpec { count: num, sides })
}

} // verus!

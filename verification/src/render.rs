//! The formatter: renders a roll outcome as the colored text the roller
//! prints, proved equal to a spec-level rendering.

use vstd::prelude::*;
use vstd::string::StringExecFns;

use crate::dice::RollOutcome;
use crate::notation::{dec_digits, spec_digit_char};

verus! {

/// `t` wrapped in the ANSI codes that print it blue.
pub open spec fn color_blue(t: Seq<char>) -> Seq<char> {
    "\u{1b}[34m"@ + t + "\u{1b}[0m"@
}

/// `t` wrapped in the ANSI codes that print it green.
pub open spec fn color_green(t: Seq<char>) -> Seq<char> {
    "\u{1b}[32m"@ + t + "\u{1b}[0m"@
}

/// `t` wrapped in the ANSI codes that print it red.
pub open spec fn color_red(t: Seq<char>) -> Seq<char> {
    "\u{1b}[31m"@ + t + "\u{1b}[0m"@
}

/// The rolls separated by `, `, in draw order.
pub open spec fn render_items(rolls: Seq<u32>) -> Seq<char>
    decreases rolls.len(),
{
    if rolls.len() == 0 {
        Seq::empty()
    } else if rolls.len() == 1 {
        dec_digits(rolls[0] as int)
    } else {
        render_items(rolls.drop_last()) + ", "@ + dec_digits(rolls.last() as int)
    }
}

/// The rolls as a bracketed list, `[r1, r2, ...]`.
pub open spec fn render_rolls(rolls: Seq<u32>) -> Seq<char> {
    "["@ + render_items(rolls) + "]"@
}

/// The full output line for an outcome: a standard roll prints its blue
/// total, with the rolls and `=` before it when verbose; a contest roll
/// prints both rolls and the kept value, green under advantage and red
/// under disadvantage.
pub open spec fn render_outcome_spec(out: RollOutcome, verbose: bool, advantage: bool) -> Seq<
    char,
> {
    match out {
        RollOutcome::Aggregate { rolls, total } => if verbose {
            render_rolls(rolls@) + " = "@ + color_blue(dec_digits(total as int))
        } else {
            color_blue(dec_digits(total as int))
        },
        RollOutcome::Contest { roll1, roll2, chosen } => "["@ + dec_digits(roll1 as int) + ", "@
            + dec_digits(roll2 as int) + "] = "@ + (if advantage {
            color_green(dec_digits(chosen as int))
        } else {
            color_red(dec_digits(chosen as int))
        }),
    }
}

/// The one-character string for a digit value.
fn digit_str(d: u64) -> (r: &'static str)
    requires
        d < 10,
    ensures
        r@ == seq![spec_digit_char(d as int)],
{
    let r = match d {
        0 => "0",
        1 => "1",
        2 => "2",
        3 => "3",
        4 => "4",
        5 => "5",
        6 => "6",
        7 => "7",
        8 => "8",
        _ => "9",
    };
    proof {
        reveal_strlit("0");
        reveal_strlit("1");
        reveal_strlit("2");
        reveal_strlit("3");
        reveal_strlit("4");
        reveal_strlit("5");
        reveal_strlit("6");
        reveal_strlit("7");
        reveal_strlit("8");
        reveal_strlit("9");
        assert(r@ =~= seq![spec_digit_char(d as int)]);
    }
    r
}

/// Appends the canonical decimal rendering of `n`.
fn push_decimal(out: &mut String, n: u64)
    ensures
        final(out)@ == old(out)@ + dec_digits(n as int),
    decreases n,
{
    if n >= 10 {
        push_decimal(out, n / 10);
        out.append(digit_str(n % 10));
        proof {
            assert(out@ =~= old(out)@ + dec_digits(n as int));
        }
    } else {
        out.append(digit_str(n));
    }
}

/// Appends the bracketed list of the rolls.
fn push_rolls(out: &mut String, rolls: &Vec<u32>)
    ensures
        final(out)@ == old(out)@ + render_rolls(rolls@),
{
    out.append("[");
    let n = rolls.len();
    let mut i: usize = 0;
    while i < n
        invariant
            i <= n,
            n == rolls@.len(),
            out@ == old(out)@ + "["@ + render_items(rolls@.take(i as int)),
        decreases n - i,
    {
        if i > 0 {
            out.append(", ");
        }
        push_decimal(out, rolls[i] as u64);
        proof {
            let taken = rolls@.take(i as int + 1);
            assert(taken.drop_last() =~= rolls@.take(i as int));
            assert(taken.last() == rolls@[i as int]);
            if i == 0 {
                assert(rolls@.take(0int) =~= Seq::<u32>::empty());
            }
            assert(out@ =~= old(out)@ + "["@ + render_items(taken));
        }
        i = i + 1;
    }
    proof {
        assert(rolls@.take(n as int) =~= rolls@);
    }
    out.append("]");
    proof {
        assert(out@ =~= old(out)@ + render_rolls(rolls@));
    }
}

/// Renders an outcome as the exact line the roller prints, colors
/// included.
pub fn render_outcome(out: &RollOutcome, verbose: bool, advantage: bool) -> (r: String)
    ensures
        r@ == render_outcome_spec(*out, verbose, advantage),
{
    match out {
        RollOutcome::Aggregate { rolls, total } => {
            let mut s = String::new();
            if verbose {
                push_rolls(&mut s, rolls);
                s.append(" = ");
            }
            s.append("\u{1b}[34m");
            push_decimal(&mut s, *total);
            s.append("\u{1b}[0m");
            proof {
                assert(s@ =~= render_outcome_spec(*out, verbose, advantage));
            }
            s
        },
        RollOutcome::Contest { roll1, roll2, chosen } => {
            let mut s = String::new();
            s.append("[");
            push_decimal(&mut s, *roll1 as u64);
            s.append(", ");
            push_decimal(&mut s, *roll2 as u64);
            s.append("] = ");
            if advantage {
                s.append("\u{1b}[32m");
            } else {
                s.append("\u{1b}[31m");
            }
            push_decimal(&mut s, *chosen as u64);
            s.append("\u{1b}[0m");
            proof {
                assert(s@ =~= render_outcome_spec(*out, verbose, advantage));
            }
            s
        },
    }
}

} // verus!

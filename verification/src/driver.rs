//! How a run is paced, and the keys by which a user chooses.

use vstd::prelude::*;

verus! {

/// How the driver moves from one cycle to the next.
#[derive(Clone, Copy, Debug, PartialEq, Eq, Structural)]
pub enum IterationFormat {
    /// The user triggers every cycle.
    User,
    /// Every cycle is shown, one after the other.
    Auto,
    /// Only the final state is shown.
    NoCycles,
}

impl IterationFormat {
    /// The format that a key stands for, if it stands for one.
    pub open spec fn of_key(key: char) -> Option<IterationFormat> {
        if key == 'm' || key == 'M' {
            Some(IterationFormat::User)
        } else if key == 'a' || key == 'A' {
            Some(IterationFormat::Auto)
        } else if key == 'n' || key == 'N' {
            Some(IterationFormat::NoCycles)
        } else {
            None
        }
    }

    /// Reads a key: `m` is manual, `a` automatic, `n` silent, in either case.
    pub fn from_key(key: char) -> (r: Option<IterationFormat>)
        ensures
            r == Self::of_key(key),
    {
        match key {
            'm' | 'M' => Some(IterationFormat::User),
            'a' | 'A' => Some(IterationFormat::Auto),
            'n' | 'N' => Some(IterationFormat::NoCycles),
            _ => None,
        }
    }
}

impl Default for IterationFormat {
    fn default() -> (r: IterationFormat)
        ensures
            r == IterationFormat::Auto,
    {
        IterationFormat::Auto
    }
}

/// What a key answers to the question whether to run another program:
/// `Some(true)` to stop (`n`), `Some(false)` to go on (`y`), `None` for any
/// other key.
pub open spec fn stop_answer(key: char) -> Option<bool> {
    if key == 'n' || key == 'N' {
        Some(true)
    } else if key == 'y' || key == 'Y' {
        Some(false)
    } else {
        None
    }
}

/// Reads the answer to the question whether to run another program.
pub fn read_stop_answer(key: char) -> (r: Option<bool>)
    ensures
        r == stop_answer(key),
{
    match key {
        'n' | 'N' => Some(true),
        'y' | 'Y' => Some(false),
        _ => None,
    }
}

} // verus!

//! The drum notation of pattern building: one character per eighth-note step,
//! `K` kick, `S` snare, `H` or `.` hi-hat, space or `-` a rest.

use vstd::prelude::*;

verus! {

/// What one character of drum notation stands for.
#[derive(Debug, Clone, Copy, PartialEq, Eq, Structural)]
pub enum NotationStep {
    /// `K` or `k`
    Kick,
    /// `S` or `s`
    Snare,
    /// `H`, `h` or `.`
    HiHat,
    /// space or `-`
    Rest,
    /// any other character, which the builder reports as an error
    Unknown(char),
}

/// The step a notation character stands for.
pub open spec fn step_of(c: char) -> NotationStep {
    if c == 'K' || c == 'k' {
        NotationStep::Kick
    } else if c == 'S' || c == 's' {
        NotationStep::Snare
    } else if c == 'H' || c == 'h' || c == '.' {
        NotationStep::HiHat
    } else if c == ' ' || c == '-' {
        NotationStep::Rest
    } else {
        NotationStep::Unknown(c)
    }
}

/// The step a notation character stands for.
pub fn notation_step(c: char) -> (r: NotationStep)
    ensures
        r == step_of(c),
{
    match c {
        'K' | 'k' => NotationStep::Kick,
        'S' | 's' => NotationStep::Snare,
        'H' | 'h' | '.' => NotationStep::HiHat,
        ' ' | '-' => NotationStep::Rest,
        _ => NotationStep::Unknown(c),
    }
}

/// The steps of a notation string, one per character; step `i` falls on beat
/// position 1 + i/2 (eighth notes from the first beat).
pub fn parse_notation(notation: &str) -> (r: Vec<NotationStep>)
    ensures
        r@ == notation@.map_values(|c: char| step_of(c)),
{
    let mut steps: Vec<NotationStep> = Vec::new();
    for ch in it: notation.chars()
        invariant
            it.seq() == notation@,
            steps@.len() == it.index(),
            forall|k: int| 0 <= k < it.index() ==> #[trigger] steps@[k] == step_of(notation@[k]),
    {
        steps.push(notation_step(ch));
    }
    assert(steps@ =~= notation@.map_values(|c: char| step_of(c)));
    steps
}

} // verus!

//! A small subject for parameterized tests: instructions that lead through an
//! apartment building, `(` one floor up and `)` one floor down, starting at
//! the ground floor.

use crate::text::chars_of;
use vstd::prelude::*;

verus! {

/// Why the instructions cannot be followed.
#[derive(Debug, PartialEq, Eq, Structural)]
pub enum NorthPoleError {
    /// The character is neither `(` nor `)`.
    InvalidInstruction(char),
}

/// `(` and `)` are the instructions.
pub open spec fn is_instruction(c: char) -> bool {
    c == '(' || c == ')'
}

/// The floors that one character moves: up, down, or not at all.
pub open spec fn step(c: char) -> int {
    if c == '(' {
        1
    } else if c == ')' {
        -1
    } else {
        0
    }
}

/// The floor reached after all of `instructions`.
pub open spec fn floor_after(instructions: Seq<char>) -> int
    decreases instructions.len(),
{
    if instructions.len() == 0 {
        0
    } else {
        floor_after(instructions.drop_last()) + step(instructions.last())
    }
}

/// The first `n` characters are all instructions.
pub open spec fn can_follow(instructions: Seq<char>, n: int) -> bool {
    forall|j: int| 0 <= j < n ==> is_instruction(#[trigger] instructions[j])
}

/// The floor never leaves the range that the number of instructions allows.
pub proof fn floor_is_bounded(instructions: Seq<char>)
    ensures
        -instructions.len() <= floor_after(instructions) <= instructions.len(),
    decreases instructions.len(),
{
    if instructions.len() > 0 {
        floor_is_bounded(instructions.drop_last());
    }
}

/// The floor reached by following every instruction, or the first character
/// that is no instruction.
pub fn go_to_apartment_level(instructions: &str) -> (level: Result<isize, NorthPoleError>)
    requires
        instructions@.len() <= isize::MAX,
    ensures
        match level {
            Ok(floor) => can_follow(instructions@, instructions@.len() as int) && floor
                == floor_after(instructions@),
            Err(NorthPoleError::InvalidInstruction(c)) => exists|i: int|
                0 <= i < instructions@.len() && #[trigger] instructions@[i] == c && !is_instruction(
                    c,
                ) && can_follow(instructions@, i),
        },
{
    let chars = chars_of(instructions);
    let mut floor: isize = 0;
    let mut i: usize = 0;
    while i < chars.len()
        invariant
            i <= chars.len(),
            chars@ == instructions@,
            chars@.len() <= isize::MAX,
            can_follow(chars@, i as int),
            floor == floor_after(chars@.take(i as int)),
        decreases chars.len() - i,
    {
        let c = chars[i];
        proof {
            floor_is_bounded(chars@.take(i as int));
            assert(chars@.take(i + 1).drop_last() == chars@.take(i as int));
        }
        if c == '(' {
            floor = floor + 1;
        } else if c == ')' {
            floor = floor - 1;
        } else {
            return Err(NorthPoleError::InvalidInstruction(c));
        }
        i = i + 1;
    }
    proof {
        assert(chars@.take(i as int) == chars@);
    }
    Ok(floor)
}

/// The number of the first instruction (counted from 1) that leads to the
/// basement, floor -1. A character that is no instruction ends the walk.
pub fn entered_basement_at_instruction(instructions: &str) -> (entered: Option<usize>)
    ensures
        match entered {
            Some(n) => {
                &&& 1 <= n <= instructions@.len()
                &&& can_follow(instructions@, n as int)
                &&& floor_after(instructions@.take(n as int)) == -1
                &&& forall|m: int|
                    1 <= m < n ==> floor_after(#[trigger] instructions@.take(m)) != -1
            },
            None => forall|m: int|
                1 <= m <= instructions@.len() && can_follow(instructions@, m) ==> floor_after(
                    #[trigger] instructions@.take(m),
                ) != -1,
        },
{
    let chars = chars_of(instructions);
    // The floor is `ups - downs`; the two counts cannot leave their range.
    let mut ups: usize = 0;
    let mut downs: usize = 0;
    let mut i: usize = 0;
    while i < chars.len()
        invariant
            i <= chars.len(),
            chars@ == instructions@,
            can_follow(chars@, i as int),
            ups + downs == i,
            downs <= ups,
            ups - downs == floor_after(chars@.take(i as int)),
            forall|m: int| 1 <= m <= i ==> floor_after(#[trigger] chars@.take(m)) != -1,
        decreases chars.len() - i,
    {
        let c = chars[i];
        proof {
            assert(chars@.take(i + 1).drop_last() == chars@.take(i as int));
        }
        if c == '(' {
            ups = ups + 1;
        } else if c == ')' {
            downs = downs + 1;
        } else {
            assert forall|m: int| 1 <= m <= chars@.len() && can_follow(chars@, m) implies
                floor_after(#[trigger] chars@.take(m)) != -1 by {
                if m > i {
                    assert(is_instruction(chars@[i as int]));
                }
            }
            return None;
        }
        i = i + 1;
        if downs > ups {
            return Some(i);
        }
    }
    None
}

} // verus!

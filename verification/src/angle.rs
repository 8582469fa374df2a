//! The shortest turn between two directions.
//!
//! Angles are whole numbers of steps, counterclockwise positive. The caller
//! chooses the step by saying how many of them make half a turn.

use vstd::prelude::*;

verus! {

/// The angle `a` is normalized: it lies in the range from minus half a turn,
/// included, to half a turn, excluded.
pub open spec fn normalized_angle(a: int, half_turn: int) -> bool {
    -half_turn <= a < half_turn
}

/// The difference `a2 - a1`, brought back into the normalized range by one
/// whole turn where it lies outside.
pub open spec fn shortest_turn(a1: int, a2: int, half_turn: int) -> int {
    let raw = a2 - a1;
    if raw >= half_turn {
        raw - 2 * half_turn
    } else if raw < -half_turn {
        raw + 2 * half_turn
    } else {
        raw
    }
}

/// The shortest turn that leads from the angle `a1` to the angle `a2`,
/// counterclockwise positive. Both angles must be normalized, and so is the
/// result.
pub fn angle_dist(a1: i64, a2: i64, half_turn: i64) -> (r: i64)
    requires
        normalized_angle(a1 as int, half_turn as int),
        normalized_angle(a2 as int, half_turn as int),
    ensures
        r == shortest_turn(a1 as int, a2 as int, half_turn as int),
        normalized_angle(r as int, half_turn as int),
{
    let turn: i128 = 2 * (half_turn as i128);
    let mut a3: i128 = a2 as i128 - a1 as i128;
    if a3 >= half_turn as i128 {
        a3 = a3 - turn;
    } else if a3 < -(half_turn as i128) {
        a3 = a3 + turn;
    }
    a3 as i64
}

/// The shortest turn between normalized angles is normalized, and it leads
/// from the first angle to the second: the two differ from it by no turn or
/// by one whole turn.
pub proof fn lemma_shortest_turn_arrives(a1: int, a2: int, half_turn: int)
    requires
        normalized_angle(a1, half_turn),
        normalized_angle(a2, half_turn),
    ensures
        normalized_angle(shortest_turn(a1, a2, half_turn), half_turn),
        a1 + shortest_turn(a1, a2, half_turn) == a2 || a1 + shortest_turn(a1, a2, half_turn) == a2
            + 2 * half_turn || a1 + shortest_turn(a1, a2, half_turn) == a2 - 2 * half_turn,
{
}

/// Turning back is the opposite of turning there, except for the half turn,
/// which counts as clockwise both ways.
pub proof fn lemma_shortest_turn_back(a1: int, a2: int, half_turn: int)
    requires
        normalized_angle(a1, half_turn),
        normalized_angle(a2, half_turn),
        shortest_turn(a1, a2, half_turn) != -half_turn,
    ensures
        shortest_turn(a2, a1, half_turn) == -shortest_turn(a1, a2, half_turn),
{
}

} // verus!

//! The eight canonical EXIF orientation codes and the quarter-turn
//! rotation state machine over them.
//!
//! Each code maps to a rotation of 0, 90, 180 or 270 degrees followed by an
//! optional mirroring. Unknown or missing codes are treated as code 1
//! (no transform). Rotation advances only the pure-rotation subset
//! {1, 6, 3, 8}; mirrored states are normalized to 1 before the step.

use vstd::prelude::*;

verus! {

/// Direction of one quarter-turn rotation step.
#[derive(Debug, Clone, Copy, PartialEq, Eq, Structural)]
pub enum RotationDirection {
    Clockwise,
    CounterClockwise,
}

/// The orientation codes with a defined transform.
pub open spec fn is_supported_orientation(code: u16) -> bool {
    1 <= code <= 8
}

/// Clockwise rotation, in degrees, that the code asks of the renderer.
pub open spec fn spec_rotation_degrees(code: u16) -> u16 {
    if code == 3 || code == 4 {
        180
    } else if code == 5 || code == 6 {
        90
    } else if code == 7 || code == 8 {
        270
    } else {
        0
    }
}

/// Whether the code asks for a mirroring after the rotation.
pub open spec fn spec_is_mirrored(code: u16) -> bool {
    code == 2 || code == 4 || code == 5 || code == 7
}

/// Whether applying the code's transform swaps an image's width and height:
/// exactly the codes that rotate by a quarter turn.
pub open spec fn spec_swaps_dimensions(code: u16) -> bool {
    spec_rotation_degrees(code) == 90 || spec_rotation_degrees(code) == 270
}

/// Whether the code's transform swaps width and height; true exactly for
/// codes 5 through 8.
pub fn swaps_dimensions(code: u16) -> (r: bool)
    ensures
        r == spec_swaps_dimensions(code),
        r == (5 <= code <= 8),
{
    5 <= code && code <= 8
}

/// The pixel dimensions of an image of `width` by `height` after the
/// transform of `code` is applied: swapped for the quarter-turn codes
/// (5 through 8), unchanged otherwise.
pub fn transformed_dimensions(code: u16, width: u32, height: u32) -> (r: (u32, u32))
    ensures
        spec_swaps_dimensions(code) ==> r == (height, width),
        !spec_swaps_dimensions(code) ==> r == (width, height),
{
    if swaps_dimensions(code) {
        (height, width)
    } else {
        (width, height)
    }
}

/// The orientation a pure-rotation state advances to on one step.
/// Mirrored and unknown states are first normalized to 1.
pub open spec fn spec_next_orientation(code: u16, direction: RotationDirection) -> u16 {
    let base: u16 = if is_supported_orientation(code) && !spec_is_mirrored(code) {
        code
    } else {
        1
    };
    match direction {
        RotationDirection::Clockwise => if base == 1 {
            6
        } else if base == 6 {
            3
        } else if base == 3 {
            8
        } else {
            1
        },
        RotationDirection::CounterClockwise => if base == 1 {
            8
        } else if base == 8 {
            3
        } else if base == 3 {
            6
        } else {
            1
        },
    }
}

/// One quarter-turn step of the stored orientation.
pub fn next_orientation(code: u16, direction: RotationDirection) -> (r: u16)
    ensures
        r == spec_next_orientation(code, direction),
        r == 1 || r == 3 || r == 6 || r == 8,
{
    let base: u16 = if code == 3 || code == 6 || code == 8 {
        code
    } else {
        1
    };
    match direction {
        RotationDirection::Clockwise => {
            if base == 1 {
                6
            } else if base == 6 {
                3
            } else if base == 3 {
                8
            } else {
                1
            }
        },
        RotationDirection::CounterClockwise => {
            if base == 1 {
                8
            } else if base == 8 {
                3
            } else if base == 3 {
                6
            } else {
                1
            }
        },
    }
}

/// Four rotation steps in one direction return a pure-rotation state to
/// itself: the state machine over {1, 6, 3, 8} is a closed 4-cycle.
pub proof fn lemma_rotation_cycle_closure(code: u16, direction: RotationDirection)
    requires
        code == 1 || code == 3 || code == 6 || code == 8,
    ensures
        spec_next_orientation(
            spec_next_orientation(
                spec_next_orientation(spec_next_orientation(code, direction), direction),
                direction,
            ),
            direction,
        ) == code,
{
}

/// A clockwise step undoes a counter-clockwise step on the pure-rotation
/// subset, and the other way round.
pub proof fn lemma_rotation_steps_inverse(code: u16)
    requires
        code == 1 || code == 3 || code == 6 || code == 8,
    ensures
        spec_next_orientation(
            spec_next_orientation(code, RotationDirection::Clockwise),
            RotationDirection::CounterClockwise,
        ) == code,
        spec_next_orientation(
            spec_next_orientation(code, RotationDirection::CounterClockwise),
            RotationDirection::Clockwise,
        ) == code,
{
}

} // verus!

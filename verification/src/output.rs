//! Which outputs one step sends, and what each carries.
//!
//! Every enabled arm sends one output, right before left. When only one arm
//! is enabled its output carries just its own position; when both are, each
//! output carries its own position together with the other arm's position
//! at the same step.

use vstd::prelude::*;

verus! {

/// The output id for the right arm's motor command.
pub const OUTPUT_MOVE_POSITION_RIGHT: &'static str = "move_position_right";

/// The output id for the left arm's motor command.
pub const OUTPUT_MOVE_POSITION_LEFT: &'static str = "move_position_left";

/// The output ids, one per arm side.
#[derive(Debug, Clone, Copy, PartialEq, Eq, Structural)]
pub enum OutputId {
    /// `move_position_right`.
    MovePositionRight,
    /// `move_position_left`.
    MovePositionLeft,
}

impl OutputId {
    /// The id's name on the dataflow.
    pub fn name(&self) -> (name: &'static str)
        ensures
            *self == OutputId::MovePositionRight ==> name@ == OUTPUT_MOVE_POSITION_RIGHT@,
            *self == OutputId::MovePositionLeft ==> name@ == OUTPUT_MOVE_POSITION_LEFT@,
    {
        match self {
            OutputId::MovePositionRight => OUTPUT_MOVE_POSITION_RIGHT,
            OutputId::MovePositionLeft => OUTPUT_MOVE_POSITION_LEFT,
        }
    }
}

/// What one arm's output carries.
#[derive(Debug, Clone, PartialEq)]
pub enum ArmCommand<T> {
    /// Only this arm is enabled: its own position.
    Position(Vec<T>),
    /// Both arms are enabled: this arm's position, and the other arm's
    /// position at the same step.
    WithOtherArm {
        /// This arm's position.
        new_position: Vec<T>,
        /// The other arm's position.
        other_arm_position: Vec<T>,
    },
}

/// `command` carries `own` alone (`other` is `None`), or `own` together with
/// the other arm's position.
pub open spec fn carries<T>(command: ArmCommand<T>, own: Seq<T>, other: Option<Seq<T>>) -> bool {
    match command {
        ArmCommand::Position(p) => other is None && p@ == own,
        ArmCommand::WithOtherArm { new_position, other_arm_position } => other matches Some(o)
            && new_position@ == own && other_arm_position@ == o,
    }
}

/// Plans the outputs of one step from the split arm positions, right then
/// left; a disabled arm (`None`) sends nothing.
pub fn plan_outputs<T: Copy>(right: Option<&[T]>, left: Option<&[T]>) -> (outputs: Vec<
    (OutputId, ArmCommand<T>),
>)
    ensures
        outputs@.len() == (if right is Some { 1int } else { 0 }) + (if left is Some { 1int } else { 0 }),
        right matches Some(r) ==> {
            &&& outputs@[0].0 == OutputId::MovePositionRight
            &&& carries(
                outputs@[0].1,
                r@,
                match left {
                    Some(l) => Some(l@),
                    None => None,
                },
            )
        },
        left matches Some(l) ==> {
            let last = outputs@.len() - 1;
            &&& outputs@[last].0 == OutputId::MovePositionLeft
            &&& carries(
                outputs@[last].1,
                l@,
                match right {
                    Some(r) => Some(r@),
                    None => None,
                },
            )
        },
{
    let mut outputs: Vec<(OutputId, ArmCommand<T>)> = Vec::new();
    match (right, left) {
        (Some(r), Some(l)) => {
            outputs.push(
                (
                    OutputId::MovePositionRight,
                    ArmCommand::WithOtherArm {
                        new_position: vstd::slice::slice_to_vec(r),
                        other_arm_position: vstd::slice::slice_to_vec(l),
                    },
                ),
            );
            outputs.push(
                (
                    OutputId::MovePositionLeft,
                    ArmCommand::WithOtherArm {
                        new_position: vstd::slice::slice_to_vec(l),
                        other_arm_position: vstd::slice::slice_to_vec(r),
                    },
                ),
            );
        },
        (Some(r), None) => {
            outputs.push(
                (OutputId::MovePositionRight, ArmCommand::Position(vstd::slice::slice_to_vec(r))),
            );
        },
        (None, Some(l)) => {
            outputs.push(
                (OutputId::MovePositionLeft, ArmCommand::Position(vstd::slice::slice_to_vec(l))),
            );
        },
        (None, None) => {},
    }
    outputs
}

} // verus!

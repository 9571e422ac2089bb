//! Behavior tests for output planning.

use dora_openarm_actions_executor_rust::{
    plan_outputs, ArmCommand, OutputId, OUTPUT_MOVE_POSITION_LEFT, OUTPUT_MOVE_POSITION_RIGHT,
};

#[test]
fn only_right_arm_sends_a_single_plain_array() {
    let right = vec![1.0_f32, 2.0, 3.0, 4.0, 5.0, 6.0, 7.0, 8.0];
    let outputs = plan_outputs(Some(&right), None);
    assert_eq!(outputs.len(), 1);
    assert_eq!(outputs[0].0.name(), OUTPUT_MOVE_POSITION_RIGHT);
    assert_eq!(outputs[0].1, ArmCommand::Position(right));
}

#[test]
fn only_left_arm_sends_a_single_plain_array() {
    let left = vec![8.0_f32, 7.0, 6.0, 5.0, 4.0, 3.0, 2.0, 1.0];
    let outputs = plan_outputs(None, Some(&left));
    assert_eq!(outputs.len(), 1);
    assert_eq!(outputs[0].0.name(), OUTPUT_MOVE_POSITION_LEFT);
    assert_eq!(outputs[0].1, ArmCommand::Position(left));
}

#[test]
fn neither_arm_sends_no_outputs() {
    let outputs = plan_outputs::<f32>(None, None);
    assert!(outputs.is_empty());
}

#[test]
fn both_arms_send_struct_arrays_in_right_then_left_order() {
    let right = vec![1.0_f32; 8];
    let left = vec![2.0_f32; 8];
    let outputs = plan_outputs(Some(&right), Some(&left));

    assert_eq!(outputs.len(), 2);
    assert_eq!(outputs[0].0, OutputId::MovePositionRight);
    assert_eq!(outputs[1].0, OutputId::MovePositionLeft);
    assert_eq!(
        outputs[0].1,
        ArmCommand::WithOtherArm {
            new_position: right.clone(),
            other_arm_position: left.clone(),
        }
    );
    assert_eq!(
        outputs[1].1,
        ArmCommand::WithOtherArm {
            new_position: left,
            other_arm_position: right,
        }
    );
}

#[test]
fn output_ids_name_the_dataflow_outputs() {
    assert_eq!(OutputId::MovePositionRight.name(), "move_position_right");
    assert_eq!(OutputId::MovePositionLeft.name(), "move_position_left");
}

//! Tests of the VMC message layer: round trips through `to_osc` and
//! `parse`, forward-compatible extra arguments, and the semantic errors.

use vmc::message::{
    ApplyBlendShapes, BlendShape, BoneTransform, DeviceTransform, Quat, RootTransform, State,
    Time, Vec3,
};
use vmc::names::{
    CalibrationMode, CalibrationState, DeviceType, ModelState, StandardVRM0Bone,
    StandardVRMBlendShape, TrackingState,
};
use vmc::osc::{OSCBundle, OSCMessage, OSCPacket, OSCTime, OSCType};
use vmc::{parse, VMCError, VMCMessage};

fn vec3(x: f32, y: f32, z: f32) -> Vec3 {
    Vec3::new(x.to_bits(), y.to_bits(), z.to_bits())
}

fn quat(q: glam::Quat) -> Quat {
    Quat::new(q.x.to_bits(), q.y.to_bits(), q.z.to_bits(), q.w.to_bits())
}

#[test]
fn test_parse_root_transform() {
    let position = vec3(0.5, 0.2, -0.4);
    let rotation = quat(glam::Quat::from_array([1.0, 2.0, 3.0, 4.0]).normalize());
    let scale = vec3(0.8, 1.0, 0.3);
    let offset = vec3(-0.1, 0.12, -0.3);

    let packet = RootTransform::new(position, rotation).into_osc_packet();
    let parsed = parse(packet).unwrap();
    match &parsed[0] {
        VMCMessage::RootTransform(transform) => {
            assert_eq!(transform.position, position);
            assert_eq!(transform.rotation, rotation);
            assert!(transform.scale.is_none());
            assert!(transform.offset.is_none());
        }
        _ => panic!(),
    }

    let packet = RootTransform::new_mr(position, rotation, scale, offset).into_osc_packet();
    let parsed = parse(packet).unwrap();
    match &parsed[0] {
        VMCMessage::RootTransform(transform) => {
            assert_eq!(transform.position, position);
            assert_eq!(transform.rotation, rotation);
            assert_eq!(transform.scale.unwrap(), scale);
            assert_eq!(transform.offset.unwrap(), offset);
        }
        _ => panic!(),
    }
}

#[test]
fn test_parse_bone_transform() {
    let position = vec3(0.5, 0.2, -0.4);
    let rotation = quat(glam::Quat::from_array([1.0, 2.0, 3.0, 4.0]).normalize());

    for bone in [
        StandardVRM0Bone::Chest,
        StandardVRM0Bone::RightEye,
        StandardVRM0Bone::LeftIndexDistal,
        StandardVRM0Bone::Spine,
        StandardVRM0Bone::RightHand,
    ] {
        let packet = BoneTransform::new(bone.as_ref(), position, rotation).into_osc_packet();
        let parsed = parse(packet).unwrap();
        match &parsed[0] {
            VMCMessage::BoneTransform(transform) => {
                assert_eq!(transform.bone, bone.as_ref());
                assert_eq!(transform.position, position);
                assert_eq!(transform.rotation, rotation);
            }
            _ => panic!(),
        }
    }
}

#[test]
fn test_parse_device_transform() {
    let position = vec3(0.5, 0.2, -0.4);
    let rotation = quat(glam::Quat::from_array([1.0, 2.0, 3.0, 4.0]).normalize());

    for device in [DeviceType::HMD, DeviceType::Controller, DeviceType::Tracker] {
        for joint in ["Head", "LeftHand"] {
            for locality in [true, false] {
                let packet =
                    DeviceTransform::new(device, joint, position, rotation, locality)
                        .into_osc_packet();
                let parsed = parse(packet).unwrap();
                match &parsed[0] {
                    VMCMessage::DeviceTransform(transform) => {
                        assert_eq!(transform.device, device);
                        assert_eq!(transform.joint, joint);
                        assert_eq!(transform.position, position);
                        assert_eq!(transform.rotation, rotation);
                        assert_eq!(transform.local, locality);
                    }
                    _ => panic!(),
                }
            }
        }
    }
}

#[test]
fn test_parse_blend_shape() {
    for shape in [
        StandardVRMBlendShape::A,
        StandardVRMBlendShape::LookRight,
        StandardVRMBlendShape::Sorrow,
    ] {
        for value in [0.1f32, 0.9f32] {
            let packet = BlendShape::new(shape.as_ref(), value.to_bits()).into_osc_packet();
            let parsed = parse(packet).unwrap();
            match &parsed[0] {
                VMCMessage::BlendShape(blend) => {
                    assert_eq!(StandardVRMBlendShape::from_str(&blend.key).unwrap(), shape);
                    assert_eq!(blend.value, value.to_bits());
                }
                _ => panic!(),
            }
        }
    }

    let packet = ApplyBlendShapes.into_osc_packet();
    let parsed = parse(packet).unwrap();
    match &parsed[0] {
        VMCMessage::ApplyBlendShapes => (),
        _ => panic!(),
    }
}

#[test]
fn test_parse_state() {
    let model_state = ModelState::Loaded;
    let calibration_state = CalibrationState::Calibrating;
    let calibration_mode = CalibrationMode::MixedRealityHand;
    let tracking_state = TrackingState::Poor;

    let packet = State::new(model_state).into_osc_packet();
    let parsed = parse(packet).unwrap();
    match &parsed[0] {
        VMCMessage::State(state) => {
            assert_eq!(state.model_state, model_state);
            assert!(state.calibration_state.is_none());
            assert!(state.tracking_state.is_none());
        }
        _ => panic!(),
    }

    let packet =
        State::new_calibration(model_state, calibration_mode, calibration_state).into_osc_packet();
    let parsed = parse(packet).unwrap();
    match &parsed[0] {
        VMCMessage::State(state) => {
            assert_eq!(state.model_state, model_state);
            let calibration = state.calibration_state.unwrap();
            assert_eq!(calibration.0, calibration_mode);
            assert_eq!(calibration.1, calibration_state);
            assert!(state.tracking_state.is_none());
        }
        _ => panic!(),
    }

    let packet =
        State::new_tracking(model_state, calibration_mode, calibration_state, tracking_state)
            .into_osc_packet();
    let parsed = parse(packet).unwrap();
    match &parsed[0] {
        VMCMessage::State(state) => {
            assert_eq!(state.model_state, model_state);
            let calibration = state.calibration_state.unwrap();
            assert_eq!(calibration.0, calibration_mode);
            assert_eq!(calibration.1, calibration_state);
            assert_eq!(state.tracking_state.unwrap(), tracking_state);
        }
        _ => panic!(),
    }
}

#[test]
fn test_parse_time() {
    let time_val = 7.0f32;

    let packet = Time::new(time_val.to_bits()).into_osc_packet();
    let parsed = parse(packet).unwrap();
    match &parsed[0] {
        VMCMessage::Time(time) => {
            assert_eq!(time.0, time_val.to_bits());
        }
        _ => panic!(),
    }
}

#[test]
fn test_ignore_extra_args() {
    let msg = OSCMessage::new(
        "/VMC/Ext/T",
        vec![
            OSCType::Float(7.0f32.to_bits()),
            OSCType::String("hello".to_string()),
        ],
    );
    let parsed = parse(OSCPacket::Message(msg)).unwrap();
    match &parsed[0] {
        VMCMessage::Time(time) => assert_eq!(time.0, 7.0f32.to_bits()),
        _ => panic!(),
    }
}

#[test]
fn test_bundle_flattens_in_document_order() {
    let timetag = OSCTime { seconds: 2_208_988_800, fractional: 0 };
    let first = OSCPacket::Message(OSCMessage::new(
        "/VMC/Ext/T",
        vec![OSCType::Float(1.5f32.to_bits())],
    ));
    let nested = OSCPacket::Bundle(OSCBundle {
        timetag,
        content: vec![OSCPacket::Message(OSCMessage::new(
            "/VMC/Ext/Blend/Apply",
            vec![],
        ))],
    });
    let bundle = OSCPacket::Bundle(OSCBundle { timetag, content: vec![first, nested] });
    let parsed = parse(bundle).unwrap();
    assert_eq!(parsed.len(), 2);
    match &parsed[0] {
        VMCMessage::Time(t) => assert_eq!(t.0, 1.5f32.to_bits()),
        _ => panic!(),
    }
    match &parsed[1] {
        VMCMessage::ApplyBlendShapes => (),
        _ => panic!(),
    }
}

#[test]
fn test_unknown_address_carries_message() {
    let msg = OSCMessage::new(
        "/unhandled/address",
        vec![OSCType::Int(5), OSCType::String("x".to_string())],
    );
    let err = parse(OSCPacket::Message(msg)).unwrap_err();
    assert_eq!(
        err,
        VMCError::UnimplementedMessage(
            "/unhandled/address".to_string(),
            vec![OSCType::Int(5), OSCType::String("x".to_string())],
        )
    );
}

#[test]
fn test_unknown_bone_error() {
    let position = vec3(0.0, 0.0, 0.0);
    let rotation = Quat::new(0, 0, 0, 1.0f32.to_bits());
    let packet = BoneTransform::new("NotABone", position, rotation).into_osc_packet();
    let err = parse(packet).unwrap_err();
    assert_eq!(err, VMCError::UnknownBone("NotABone".to_string()));
}

#[test]
fn test_state_decoding_boundaries() {
    // int 2 decodes to Calibrating in the calibration-state slot
    let msg = OSCMessage::new(
        "/VMC/Ext/OK",
        vec![OSCType::Int(1), OSCType::Int(2), OSCType::Int(0)],
    );
    let parsed = parse(OSCPacket::Message(msg)).unwrap();
    match &parsed[0] {
        VMCMessage::State(state) => {
            let calibration = state.calibration_state.unwrap();
            assert_eq!(calibration.1, CalibrationState::Calibrating);
            assert_eq!(calibration.0, CalibrationMode::Normal);
        }
        _ => panic!(),
    }

    // int 4 is out of range and fails, carrying the 4
    let msg = OSCMessage::new(
        "/VMC/Ext/OK",
        vec![OSCType::Int(1), OSCType::Int(4), OSCType::Int(0)],
    );
    let err = parse(OSCPacket::Message(msg)).unwrap_err();
    assert_eq!(err, VMCError::UnknownCalibrationState(4));

    assert_eq!(CalibrationState::try_from(2), Ok(CalibrationState::Calibrating));
    assert_eq!(CalibrationState::try_from(4), Err(4));
}

#[test]
fn test_state_error_variants() {
    let err = parse(OSCPacket::Message(OSCMessage::new(
        "/VMC/Ext/OK",
        vec![OSCType::Int(7)],
    )))
    .unwrap_err();
    assert_eq!(err, VMCError::UnknownModelState(7));

    let err = parse(OSCPacket::Message(OSCMessage::new(
        "/VMC/Ext/OK",
        vec![OSCType::Int(0), OSCType::Int(0), OSCType::Int(9)],
    )))
    .unwrap_err();
    assert_eq!(err, VMCError::UnknownCalibrationMode(9));

    let err = parse(OSCPacket::Message(OSCMessage::new(
        "/VMC/Ext/OK",
        vec![OSCType::Int(0), OSCType::Int(0), OSCType::Int(0), OSCType::Int(3)],
    )))
    .unwrap_err();
    assert_eq!(err, VMCError::UnknownTrackingState(3));
}

#[test]
fn test_state_argument_count_gap_is_unimplemented() {
    // two integers fall in the undefined gap between one and three
    let err = parse(OSCPacket::Message(OSCMessage::new(
        "/VMC/Ext/OK",
        vec![OSCType::Int(1), OSCType::Int(0)],
    )))
    .unwrap_err();
    assert!(matches!(err, VMCError::UnimplementedMessage(_, _)));
}

#[test]
fn test_too_few_arguments_is_an_error() {
    // a bone transform with only six floats after the name is malformed
    let msg = OSCMessage::new(
        "/VMC/Ext/Bone/Pos",
        vec![
            OSCType::String("Hips".to_string()),
            OSCType::Float(0),
            OSCType::Float(0),
            OSCType::Float(0),
            OSCType::Float(0),
            OSCType::Float(0),
            OSCType::Float(0),
        ],
    );
    let err = parse(OSCPacket::Message(msg)).unwrap_err();
    assert!(matches!(err, VMCError::UnimplementedMessage(_, _)));
}

//! Tests of the closed name and state enumerations and of the time-tag
//! conversions.

use std::time::{SystemTime, UNIX_EPOCH};
use vmc::names::{
    CalibrationMode, CalibrationState, DeviceType, ModelState, StandardVRM0Bone,
    StandardVRMBlendShape, TrackingState,
};
use vmc::osc::{OSCTime, OSCTimeError, OSCTimeErrorKind};

const ALL_BONES: [StandardVRM0Bone; 56] = [
    StandardVRM0Bone::Hips,
    StandardVRM0Bone::LeftUpperLeg,
    StandardVRM0Bone::RightUpperLeg,
    StandardVRM0Bone::LeftLowerLeg,
    StandardVRM0Bone::RightLowerLeg,
    StandardVRM0Bone::LeftFoot,
    StandardVRM0Bone::RightFoot,
    StandardVRM0Bone::Pelvis,
    StandardVRM0Bone::Spine,
    StandardVRM0Bone::Chest,
    StandardVRM0Bone::UpperChest,
    StandardVRM0Bone::Neck,
    StandardVRM0Bone::Head,
    StandardVRM0Bone::LeftShoulder,
    StandardVRM0Bone::RightShoulder,
    StandardVRM0Bone::LeftUpperArm,
    StandardVRM0Bone::RightUpperArm,
    StandardVRM0Bone::LeftLowerArm,
    StandardVRM0Bone::RightLowerArm,
    StandardVRM0Bone::LeftHand,
    StandardVRM0Bone::RightHand,
    StandardVRM0Bone::LeftToes,
    StandardVRM0Bone::RightToes,
    StandardVRM0Bone::LeftEye,
    StandardVRM0Bone::RightEye,
    StandardVRM0Bone::Jaw,
    StandardVRM0Bone::LeftThumbProximal,
    StandardVRM0Bone::LeftThumbIntermediate,
    StandardVRM0Bone::LeftThumbDistal,
    StandardVRM0Bone::LeftIndexProximal,
    StandardVRM0Bone::LeftIndexIntermediate,
    StandardVRM0Bone::LeftIndexDistal,
    StandardVRM0Bone::LeftMiddleProximal,
    StandardVRM0Bone::LeftMiddleIntermediate,
    StandardVRM0Bone::LeftMiddleDistal,
    StandardVRM0Bone::LeftRingProximal,
    StandardVRM0Bone::LeftRingIntermediate,
    StandardVRM0Bone::LeftRingDistal,
    StandardVRM0Bone::LeftLittleProximal,
    StandardVRM0Bone::LeftLittleIntermediate,
    StandardVRM0Bone::LeftLittleDistal,
    StandardVRM0Bone::RightThumbProximal,
    StandardVRM0Bone::RightThumbIntermediate,
    StandardVRM0Bone::RightThumbDistal,
    StandardVRM0Bone::RightIndexProximal,
    StandardVRM0Bone::RightIndexIntermediate,
    StandardVRM0Bone::RightIndexDistal,
    StandardVRM0Bone::RightMiddleProximal,
    StandardVRM0Bone::RightMiddleIntermediate,
    StandardVRM0Bone::RightMiddleDistal,
    StandardVRM0Bone::RightRingProximal,
    StandardVRM0Bone::RightRingIntermediate,
    StandardVRM0Bone::RightRingDistal,
    StandardVRM0Bone::RightLittleProximal,
    StandardVRM0Bone::RightLittleIntermediate,
    StandardVRM0Bone::RightLittleDistal,
];

const ALL_BLEND_SHAPES: [StandardVRMBlendShape; 17] = [
    StandardVRMBlendShape::Neutral,
    StandardVRMBlendShape::A,
    StandardVRMBlendShape::I,
    StandardVRMBlendShape::U,
    StandardVRMBlendShape::E,
    StandardVRMBlendShape::O,
    StandardVRMBlendShape::Blink,
    StandardVRMBlendShape::Joy,
    StandardVRMBlendShape::Angry,
    StandardVRMBlendShape::Sorrow,
    StandardVRMBlendShape::Fun,
    StandardVRMBlendShape::LookUp,
    StandardVRMBlendShape::LookDown,
    StandardVRMBlendShape::LookLeft,
    StandardVRMBlendShape::LookRight,
    StandardVRMBlendShape::BlinkL,
    StandardVRMBlendShape::BlinkR,
];

#[test]
fn test_bone_name_roundtrip() {
    for bone in ALL_BONES {
        assert_eq!(StandardVRM0Bone::from_str(&bone.to_string()), Ok(bone));
    }
    assert_eq!(StandardVRM0Bone::from_str("NotABone"), Err(()));
    assert_eq!(StandardVRM0Bone::from_str(""), Err(()));
}

#[test]
fn test_blend_shape_name_roundtrip() {
    for shape in ALL_BLEND_SHAPES {
        assert_eq!(StandardVRMBlendShape::from_str(&shape.to_string()), Ok(shape));
    }
    // the irregular pair uses an underscore on the wire
    assert_eq!(StandardVRMBlendShape::BlinkL.as_ref(), "Blink_L");
    assert_eq!(StandardVRMBlendShape::BlinkR.as_ref(), "Blink_R");
    assert_eq!(StandardVRMBlendShape::from_str("BlinkL"), Err(()));
}

#[test]
fn test_device_name_roundtrip() {
    for device in [DeviceType::HMD, DeviceType::Controller, DeviceType::Tracker] {
        assert_eq!(DeviceType::from_str(&device.to_string()), Ok(device));
    }
    assert_eq!(DeviceType::HMD.as_ref(), "Hmd");
    assert_eq!(DeviceType::Controller.as_ref(), "Con");
    assert_eq!(DeviceType::Tracker.as_ref(), "Tra");
    assert_eq!(DeviceType::from_str("Gamepad"), Err(()));
}

#[test]
fn test_state_int_roundtrips() {
    for (v, i) in [(ModelState::NotLoaded, 0), (ModelState::Loaded, 1)] {
        assert_eq!(v.as_i32(), i);
        assert_eq!(ModelState::try_from(i), Ok(v));
    }
    assert_eq!(ModelState::try_from(2), Err(2));

    for (v, i) in [
        (CalibrationState::Uncalibrated, 0),
        (CalibrationState::WaitingForCalibration, 1),
        (CalibrationState::Calibrating, 2),
        (CalibrationState::Calibrated, 3),
    ] {
        assert_eq!(v.as_i32(), i);
        assert_eq!(CalibrationState::try_from(i), Ok(v));
    }
    assert_eq!(CalibrationState::try_from(-1), Err(-1));

    for (v, i) in [
        (CalibrationMode::Normal, 0),
        (CalibrationMode::MixedRealityHand, 1),
        (CalibrationMode::MixedRealityFloor, 2),
    ] {
        assert_eq!(v.as_i32(), i);
        assert_eq!(CalibrationMode::try_from(i), Ok(v));
    }
    assert_eq!(CalibrationMode::try_from(3), Err(3));

    for (v, i) in [(TrackingState::Poor, 0), (TrackingState::Good, 1)] {
        assert_eq!(v.as_i32(), i);
        assert_eq!(TrackingState::try_from(i), Ok(v));
    }
    assert_eq!(TrackingState::try_from(5), Err(5));
}

#[test]
fn test_time_epoch() {
    // the unix epoch sits at the fixed offset from the 1900 epoch
    assert_eq!(
        OSCTime::try_from_unix(0, 0),
        Ok(OSCTime { seconds: 2_208_988_800, fractional: 0 })
    );
}

#[test]
fn test_time_overflow() {
    assert_eq!(
        OSCTime::try_from_unix(u64::MAX, 0),
        Err(OSCTimeError(OSCTimeErrorKind::Overflow))
    );
    // the largest representable second still converts
    let last = 0xFFFF_FFFFu64 - 2_208_988_800;
    assert!(OSCTime::try_from_unix(last, 999_999_999).is_ok());
    assert_eq!(
        OSCTime::try_from_unix(last + 1, 0),
        Err(OSCTimeError(OSCTimeErrorKind::Overflow))
    );
}

#[test]
fn test_time_roundtrip_now() {
    let now = SystemTime::now().duration_since(UNIX_EPOCH).unwrap();
    let tag = OSCTime::try_from_unix(now.as_secs(), now.subsec_nanos()).unwrap();
    let (secs, nanos) = tag.to_unix();
    assert_eq!(secs, now.as_secs());
    let diff = (nanos as i64 - now.subsec_nanos() as i64).abs();
    assert!(diff <= 5);
}

#[test]
fn test_time_roundtrip_fixed_values() {
    for nanos in [0u32, 1, 499_999_999, 500_000_000, 999_999_999] {
        let tag = OSCTime::try_from_unix(1_700_000_000, nanos).unwrap();
        let (secs, back) = tag.to_unix();
        assert_eq!(secs, 1_700_000_000);
        let diff = (back as i64 - nanos as i64).abs();
        assert!(diff <= 5);
    }
}

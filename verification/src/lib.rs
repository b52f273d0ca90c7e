//! An implementation of the Virtual Motion Capture (VMC) protocol, layered on
//! a verified codec for the Open Sound Control (OSC) binary message format.
//!
//! The crate is organised bottom-up:
//!
//! - [`wire`] holds the byte-level primitives: four-byte alignment and
//!   big-endian fixed-width words.
//! - [`osc`] holds the OSC data model: argument values, messages, bundles,
//!   packets and time tags.
//! - [`error`] holds the error taxonomy for both protocol layers.
//! - [`decoder`] turns raw bytes into packet trees.
//! - [`encoder`] turns packet trees back into bytes.
//! - [`names`] holds the closed enumerations of the VMC layer with their
//!   fixed, round-tripping string and integer encodings.
//! - [`message`] is the VMC semantic layer: the closed set of motion-capture
//!   message kinds and their mapping to and from OSC messages.
//! - [`roundtrip`] states and proves the agreement laws: the decoder
//!   inverts the encoder byte for byte, and a VMC message survives the trip
//!   through its OSC form and back.
//! - [`strutil`] holds small verified string comparison helpers.

pub mod decoder;
pub mod encoder;
pub mod error;
pub mod message;
pub mod names;
pub mod osc;
pub mod roundtrip;
pub mod strutil;
pub mod wire;

pub use crate::error::{OSCError, OSCResult, VMCError, VMCResult};
pub use crate::message::{
    parse, ApplyBlendShapes as VMCApplyBlendShapes, BlendShape as VMCBlendShape,
    BoneTransform as VMCBoneTransform, DeviceTransform as VMCDeviceTransform, Quat,
    RootTransform as VMCRootTransform, State as VMCState, Time as VMCTime, VMCMessage, Vec3,
};
pub use crate::names::{
    CalibrationMode as VMCCalibrationMode, CalibrationState as VMCCalibrationState,
    DeviceType as VMCDeviceType, ModelState as VMCModelState,
    StandardVRM0Bone as VMCStandardVRM0Bone, StandardVRMBlendShape as VMCStandardVRMBlendShape,
    TrackingState as VMCTrackingState,
};
pub use crate::osc::{OSCMessage, OSCPacket, OSCType};

//! The error taxonomy of both protocol layers: framing, string and argument
//! errors from the OSC codec, and semantic errors from the VMC layer.
//!
//! Every error carries enough context (the raw string, the raw integer, the
//! address and argument list) to reconstruct the offending input.

use crate::osc::{osc_args_view, OSCType, OscTypeView};
use vstd::prelude::*;

verus! {

/// An error returned by the OSC decoder or encoder.
#[derive(Debug, PartialEq)]
pub enum OSCError {
    /// A string field held bytes that are not valid UTF-8; carries the bytes.
    StringError(Vec<u8>),
    /// The packet framing is broken: empty input, a bad address or bundle
    /// tag, or bytes missing where a field was expected.
    BadPacket(&'static str),
    /// A message is malformed beyond its framing, such as a `]` tag with no
    /// matching `[`.
    BadMessage(&'static str),
    /// A string field is malformed.
    BadString(&'static str),
    /// An argument could not be decoded; carries a description.
    BadArg(String),
    /// A bundle element is shorter than its declared length, or otherwise
    /// malformed; carries a description.
    BadBundle(String),
    /// A catch-all for features the codec does not implement.
    Unimplemented,
}

/// The mathematical value of an [`OSCError`], by kind and payload.
pub ghost enum OscErrorView {
    StringError(Seq<u8>),
    BadPacket(Seq<char>),
    BadMessage(Seq<char>),
    BadString(Seq<char>),
    BadArg(Seq<char>),
    BadBundle(Seq<char>),
    Unimplemented,
}

impl View for OSCError {
    type V = OscErrorView;

    open spec fn view(&self) -> OscErrorView {
        match self {
            OSCError::StringError(b) => OscErrorView::StringError(b@),
            OSCError::BadPacket(m) => OscErrorView::BadPacket(m.view()),
            OSCError::BadMessage(m) => OscErrorView::BadMessage(m.view()),
            OSCError::BadString(m) => OscErrorView::BadString(m.view()),
            OSCError::BadArg(m) => OscErrorView::BadArg(m.view()),
            OSCError::BadBundle(m) => OscErrorView::BadBundle(m.view()),
            OSCError::Unimplemented => OscErrorView::Unimplemented,
        }
    }
}

pub type OSCResult<T> = Result<T, OSCError>;

/// An error returned by the VMC layer.
#[derive(Debug, PartialEq)]
pub enum VMCError {
    /// A packet failed to decode at the OSC layer.
    Osc(OSCError),
    /// No message kind matches the address and argument shape; carries the
    /// address and the full argument list.
    UnimplementedMessage(String, Vec<OSCType>),
    /// A bone name outside the standard set; carries the raw string.
    UnknownBone(String),
    /// A blend-shape name outside the standard set; carries the raw string.
    UnknownBlendShape(String),
    /// A model-state integer outside the defined range; carries the integer.
    UnknownModelState(i32),
    /// A calibration-state integer outside the defined range.
    UnknownCalibrationState(i32),
    /// A calibration-mode integer outside the defined range.
    UnknownCalibrationMode(i32),
    /// A tracking-state integer outside the defined range.
    UnknownTrackingState(i32),
}

/// The mathematical value of a [`VMCError`], by kind and payload.
pub ghost enum VmcErrorView {
    Osc(OscErrorView),
    UnimplementedMessage(Seq<char>, Seq<OscTypeView>),
    UnknownBone(Seq<char>),
    UnknownBlendShape(Seq<char>),
    UnknownModelState(i32),
    UnknownCalibrationState(i32),
    UnknownCalibrationMode(i32),
    UnknownTrackingState(i32),
}

impl View for VMCError {
    type V = VmcErrorView;

    open spec fn view(&self) -> VmcErrorView {
        match self {
            VMCError::Osc(e) => VmcErrorView::Osc(e@),
            VMCError::UnimplementedMessage(addr, args) => VmcErrorView::UnimplementedMessage(
                addr@,
                osc_args_view(args@),
            ),
            VMCError::UnknownBone(s) => VmcErrorView::UnknownBone(s@),
            VMCError::UnknownBlendShape(s) => VmcErrorView::UnknownBlendShape(s@),
            VMCError::UnknownModelState(x) => VmcErrorView::UnknownModelState(*x),
            VMCError::UnknownCalibrationState(x) => VmcErrorView::UnknownCalibrationState(*x),
            VMCError::UnknownCalibrationMode(x) => VmcErrorView::UnknownCalibrationMode(*x),
            VMCError::UnknownTrackingState(x) => VmcErrorView::UnknownTrackingState(*x),
        }
    }
}

pub type VMCResult<T> = Result<T, VMCError>;

} // verus!

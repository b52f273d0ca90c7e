//! The VMC semantic layer: the closed set of motion-capture message kinds,
//! their mapping onto OSC messages, and the parser that dispatches incoming
//! OSC packets on address and argument shape.
//!
//! Vector and quaternion components are IEEE-754 single-precision bit
//! patterns, exactly as they travel on the wire.

use crate::error::{VMCError, VMCResult, VmcErrorView};
use crate::names::{bone_of_name, calibration_mode_int, calibration_mode_int_roundtrip,
    calibration_mode_of_int, calibration_state_int, calibration_state_int_roundtrip,
    calibration_state_of_int, model_state_int, model_state_int_roundtrip, model_state_of_int,
    tracking_state_int, tracking_state_int_roundtrip, tracking_state_of_int, CalibrationMode,
    CalibrationState, DeviceType, ModelState, StandardVRM0Bone, TrackingState};
use crate::osc::{osc_args_view, osc_packets_view, OSCMessage, OSCPacket, OSCType, OscMessageView,
    OscPacketView, OscTypeView};
use crate::strutil::str_eq;
use vstd::prelude::*;

verus! {

/// A three-component vector, each component an IEEE-754 single-precision bit
/// pattern.
#[derive(Debug, Clone, Copy, PartialEq, Eq, Hash)]
pub struct Vec3 {
    pub x: u32,
    pub y: u32,
    pub z: u32,
}

impl Vec3 {
    pub fn new(x: u32, y: u32, z: u32) -> (r: Vec3)
        ensures
            r == (Vec3 { x, y, z }),
    {
        Vec3 { x, y, z }
    }
}

/// A unit quaternion, each component an IEEE-754 single-precision bit
/// pattern.
#[derive(Debug, Clone, Copy, PartialEq, Eq, Hash)]
pub struct Quat {
    pub x: u32,
    pub y: u32,
    pub z: u32,
    pub w: u32,
}

impl Quat {
    pub fn new(x: u32, y: u32, z: u32, w: u32) -> (r: Quat)
        ensures
            r == (Quat { x, y, z, w }),
    {
        Quat { x, y, z, w }
    }
}

/// Root Transform message (`/VMC/Ext/Root/Pos`).
///
/// Changes the model root absolute position and rotation, and optionally
/// scale and offset, which travel as a pair or not at all.
#[derive(Debug, Clone, Copy, PartialEq)]
pub struct RootTransform {
    pub position: Vec3,
    pub rotation: Quat,
    pub scale: Option<Vec3>,
    pub offset: Option<Vec3>,
}

impl RootTransform {
    /// Creates a root transform without scale and offset.
    pub fn new(position: Vec3, rotation: Quat) -> (r: RootTransform)
        ensures
            r == (RootTransform { position, rotation, scale: None, offset: None }),
    {
        RootTransform { position, rotation, scale: None, offset: None }
    }

    /// Creates a root transform with the scale and offset pair used to match
    /// the virtual avatar to the physical body.
    pub fn new_mr(position: Vec3, rotation: Quat, scale: Vec3, offset: Vec3) -> (r: RootTransform)
        ensures
            r == (RootTransform { position, rotation, scale: Some(scale), offset: Some(offset) }),
    {
        RootTransform { position, rotation, scale: Some(scale), offset: Some(offset) }
    }
}

/// Bone Transform message (`/VMC/Ext/Bone/Pos`).
///
/// Adjusts the position and rotation of one humanoid bone; the bone name is
/// one of the standard VRM 0.x names.
#[derive(Debug, PartialEq)]
pub struct BoneTransform {
    pub bone: String,
    pub position: Vec3,
    pub rotation: Quat,
}

/// The mathematical value of a [`BoneTransform`].
pub ghost struct BoneTransformView {
    pub bone: Seq<char>,
    pub position: Vec3,
    pub rotation: Quat,
}

impl View for BoneTransform {
    type V = BoneTransformView;

    open spec fn view(&self) -> BoneTransformView {
        BoneTransformView { bone: self.bone@, position: self.position, rotation: self.rotation }
    }
}

impl BoneTransform {
    /// Creates a bone transform; `bone` should be a standard VRM 0.x bone
    /// name for the message to round-trip through parsing.
    pub fn new(bone: &str, position: Vec3, rotation: Quat) -> (r: BoneTransform)
        ensures
            r@ == (BoneTransformView { bone: bone@, position, rotation }),
    {
        BoneTransform { bone: bone.to_owned(), position, rotation }
    }
}

/// Device Transform message (`/VMC/Ext/{Hmd,Con,Tra}/Pos[/Local]`).
#[derive(Debug, PartialEq)]
pub struct DeviceTransform {
    pub device: DeviceType,
    pub joint: String,
    pub position: Vec3,
    pub rotation: Quat,
    pub local: bool,
}

/// The mathematical value of a [`DeviceTransform`].
pub ghost struct DeviceTransformView {
    pub device: DeviceType,
    pub joint: Seq<char>,
    pub position: Vec3,
    pub rotation: Quat,
    pub local: bool,
}

impl View for DeviceTransform {
    type V = DeviceTransformView;

    open spec fn view(&self) -> DeviceTransformView {
        DeviceTransformView {
            device: self.device,
            joint: self.joint@,
            position: self.position,
            rotation: self.rotation,
            local: self.local,
        }
    }
}

impl DeviceTransform {
    /// Creates a device transform; `joint` is the OpenVR serial number, and
    /// `local` selects raw device scale over avatar scale.
    pub fn new(device: DeviceType, joint: &str, position: Vec3, rotation: Quat, local: bool) -> (r:
        DeviceTransform)
        ensures
            r@ == (DeviceTransformView { device, joint: joint@, position, rotation, local }),
    {
        DeviceTransform { device, joint: joint.to_owned(), position, rotation, local }
    }
}

/// Blend Shape message (`/VMC/Ext/Blend/Val`).
///
/// Blend shapes do not take effect until an [`ApplyBlendShapes`] message is
/// sent.
#[derive(Debug, PartialEq)]
pub struct BlendShape {
    pub key: String,
    /// The weight, as an IEEE-754 single-precision bit pattern.
    pub value: u32,
}

/// The mathematical value of a [`BlendShape`].
pub ghost struct BlendShapeView {
    pub key: Seq<char>,
    pub value: u32,
}

impl View for BlendShape {
    type V = BlendShapeView;

    open spec fn view(&self) -> BlendShapeView {
        BlendShapeView { key: self.key@, value: self.value }
    }
}

impl BlendShape {
    /// Creates a blend-shape message; see [`StandardVRMBlendShape`] for the
    /// standard keys.
    pub fn new(key: &str, value: u32) -> (r: BlendShape)
        ensures
            r@ == (BlendShapeView { key: key@, value }),
    {
        BlendShape { key: key.to_owned(), value }
    }
}

/// Apply Blend Shape message (`/VMC/Ext/Blend/Apply`).
#[derive(Debug, Clone, Copy, PartialEq, Eq)]
pub struct ApplyBlendShapes;

/// State/Availability message (`/VMC/Ext/OK`).
///
/// Carries the model loading state, optionally the calibration mode and
/// state as a pair, and optionally on top of those the tracking quality.
#[derive(Debug, Clone, Copy, PartialEq, Eq)]
pub struct State {
    pub model_state: ModelState,
    pub calibration_state: Option<(CalibrationMode, CalibrationState)>,
    pub tracking_state: Option<TrackingState>,
}

impl State {
    /// Creates a status message carrying only the model loading state.
    pub fn new(model_state: ModelState) -> (r: State)
        ensures
            r == (State { model_state, calibration_state: None, tracking_state: None }),
    {
        State { model_state, calibration_state: None, tracking_state: None }
    }

    /// Creates a status message carrying the model loading state and the
    /// calibration mode and state.
    pub fn new_calibration(
        model_state: ModelState,
        calibration_mode: CalibrationMode,
        calibration_state: CalibrationState,
    ) -> (r: State)
        ensures
            r == (State {
                model_state,
                calibration_state: Some((calibration_mode, calibration_state)),
                tracking_state: None,
            }),
    {
        State {
            model_state,
            calibration_state: Some((calibration_mode, calibration_state)),
            tracking_state: None,
        }
    }

    /// Creates a status message carrying model, calibration and tracking
    /// status.
    pub fn new_tracking(
        model_state: ModelState,
        calibration_mode: CalibrationMode,
        calibration_state: CalibrationState,
        tracking_state: TrackingState,
    ) -> (r: State)
        ensures
            r == (State {
                model_state,
                calibration_state: Some((calibration_mode, calibration_state)),
                tracking_state: Some(tracking_state),
            }),
    {
        State {
            model_state,
            calibration_state: Some((calibration_mode, calibration_state)),
            tracking_state: Some(tracking_state),
        }
    }
}

/// Relative Time message (`/VMC/Ext/T`); the payload is the relative time in
/// seconds, as an IEEE-754 single-precision bit pattern.
#[derive(Debug, Clone, Copy, PartialEq, Eq)]
pub struct Time(pub u32);

impl Time {
    pub fn new(timestamp: u32) -> (r: Time)
        ensures
            r == (Time(timestamp)),
    {
        Time(timestamp)
    }
}

/// Any message that can travel over the VMC protocol.
#[derive(Debug, PartialEq)]
pub enum VMCMessage {
    RootTransform(RootTransform),
    DeviceTransform(DeviceTransform),
    BoneTransform(BoneTransform),
    BlendShape(BlendShape),
    ApplyBlendShapes,
    State(State),
    Time(Time),
}

/// The mathematical value of a [`VMCMessage`].
pub ghost enum VmcMessageView {
    RootTransform(RootTransform),
    DeviceTransform(DeviceTransformView),
    BoneTransform(BoneTransformView),
    BlendShape(BlendShapeView),
    ApplyBlendShapes,
    State(State),
    Time(Time),
}

impl View for VMCMessage {
    type V = VmcMessageView;

    open spec fn view(&self) -> VmcMessageView {
        match self {
            VMCMessage::RootTransform(t) => VmcMessageView::RootTransform(*t),
            VMCMessage::DeviceTransform(t) => VmcMessageView::DeviceTransform(t@),
            VMCMessage::BoneTransform(t) => VmcMessageView::BoneTransform(t@),
            VMCMessage::BlendShape(b) => VmcMessageView::BlendShape(b@),
            VMCMessage::ApplyBlendShapes => VmcMessageView::ApplyBlendShapes,
            VMCMessage::State(s) => VmcMessageView::State(*s),
            VMCMessage::Time(t) => VmcMessageView::Time(*t),
        }
    }
}

/// The position-and-rotation argument run shared by all transform messages.
pub open spec fn pos_rot_args(position: Vec3, rotation: Quat) -> Seq<OscTypeView> {
    seq![
        OscTypeView::Float(position.x),
        OscTypeView::Float(position.y),
        OscTypeView::Float(position.z),
        OscTypeView::Float(rotation.x),
        OscTypeView::Float(rotation.y),
        OscTypeView::Float(rotation.z),
        OscTypeView::Float(rotation.w),
    ]
}

/// The OSC form of a root transform: the literal name `root`, position and
/// rotation, and the scale and offset pair when both are present.
pub open spec fn root_transform_osc(t: RootTransform) -> OscMessageView {
    OscMessageView {
        addr: "/VMC/Ext/Root/Pos"@,
        args: {
            let base = seq![OscTypeView::Str("root"@)] + pos_rot_args(t.position, t.rotation);
            if t.scale is Some && t.offset is Some {
                base + seq![
                    OscTypeView::Float(t.scale->0.x),
                    OscTypeView::Float(t.scale->0.y),
                    OscTypeView::Float(t.scale->0.z),
                    OscTypeView::Float(t.offset->0.x),
                    OscTypeView::Float(t.offset->0.y),
                    OscTypeView::Float(t.offset->0.z),
                ]
            } else {
                base
            }
        },
    }
}

/// The OSC form of a bone transform.
pub open spec fn bone_transform_osc(t: BoneTransformView) -> OscMessageView {
    OscMessageView {
        addr: "/VMC/Ext/Bone/Pos"@,
        args: seq![OscTypeView::Str(t.bone)] + pos_rot_args(t.position, t.rotation),
    }
}

/// The six address literals of device transforms, selected by device kind
/// and locality.
pub open spec fn device_addr(device: DeviceType, local: bool) -> Seq<char> {
    match device {
        DeviceType::HMD => if local {
            "/VMC/Ext/Hmd/Pos/Local"@
        } else {
            "/VMC/Ext/Hmd/Pos"@
        },
        DeviceType::Controller => if local {
            "/VMC/Ext/Con/Pos/Local"@
        } else {
            "/VMC/Ext/Con/Pos"@
        },
        DeviceType::Tracker => if local {
            "/VMC/Ext/Tra/Pos/Local"@
        } else {
            "/VMC/Ext/Tra/Pos"@
        },
    }
}

/// The OSC form of a device transform.
pub open spec fn device_transform_osc(t: DeviceTransformView) -> OscMessageView {
    OscMessageView {
        addr: device_addr(t.device, t.local),
        args: seq![OscTypeView::Str(t.joint)] + pos_rot_args(t.position, t.rotation),
    }
}

/// The OSC form of a blend-shape message.
pub open spec fn blend_shape_osc(b: BlendShapeView) -> OscMessageView {
    OscMessageView {
        addr: "/VMC/Ext/Blend/Val"@,
        args: seq![OscTypeView::Str(b.key), OscTypeView::Float(b.value)],
    }
}

/// The OSC form of a state message: the model state, then the calibration
/// state and mode when present, then the tracking state when present on top
/// of those.
pub open spec fn state_osc(s: State) -> OscMessageView {
    OscMessageView {
        addr: "/VMC/Ext/OK"@,
        args: {
            let base = seq![OscTypeView::Int(model_state_int(s.model_state))];
            match s.calibration_state {
                Some(c) => {
                    let with_calibration = base + seq![
                        OscTypeView::Int(calibration_state_int(c.1)),
                        OscTypeView::Int(calibration_mode_int(c.0)),
                    ];
                    match s.tracking_state {
                        Some(t) => with_calibration + seq![
                            OscTypeView::Int(tracking_state_int(t)),
                        ],
                        None => with_calibration,
                    }
                },
                None => base,
            }
        },
    }
}

/// The OSC form of a relative-time message.
pub open spec fn time_osc(t: Time) -> OscMessageView {
    OscMessageView { addr: "/VMC/Ext/T"@, args: seq![OscTypeView::Float(t.0)] }
}

/// The OSC form of any VMC message: a straight structural projection.
pub open spec fn vmc_to_osc(v: VmcMessageView) -> OscMessageView {
    match v {
        VmcMessageView::RootTransform(t) => root_transform_osc(t),
        VmcMessageView::DeviceTransform(t) => device_transform_osc(t),
        VmcMessageView::BoneTransform(t) => bone_transform_osc(t),
        VmcMessageView::BlendShape(b) => blend_shape_osc(b),
        VmcMessageView::ApplyBlendShapes => OscMessageView {
            addr: "/VMC/Ext/Blend/Apply"@,
            args: Seq::empty(),
        },
        VmcMessageView::State(s) => state_osc(s),
        VmcMessageView::Time(t) => time_osc(t),
    }
}

/// Appends a string argument.
fn push_str_arg(args: &mut Vec<OSCType>, s: String)
    ensures
        osc_args_view(final(args)@) == osc_args_view(old(args)@).push(OscTypeView::Str(s@)),
{
    let ghost prev = args@;
    args.push(OSCType::String(s));
    proof {
        crate::osc::lemma_osc_args_view_push(prev, OSCType::String(s));
    }
}

/// Appends a single-precision float argument given as its bit pattern.
fn push_f_arg(args: &mut Vec<OSCType>, bits: u32)
    ensures
        osc_args_view(final(args)@) == osc_args_view(old(args)@).push(OscTypeView::Float(bits)),
{
    let ghost prev = args@;
    args.push(OSCType::Float(bits));
    proof {
        crate::osc::lemma_osc_args_view_push(prev, OSCType::Float(bits));
    }
}

/// Appends an integer argument.
fn push_i_arg(args: &mut Vec<OSCType>, x: i32)
    ensures
        osc_args_view(final(args)@) == osc_args_view(old(args)@).push(OscTypeView::Int(x)),
{
    let ghost prev = args@;
    args.push(OSCType::Int(x));
    proof {
        crate::osc::lemma_osc_args_view_push(prev, OSCType::Int(x));
    }
}

/// Appends the seven position and rotation components.
fn push_pos_rot(args: &mut Vec<OSCType>, position: Vec3, rotation: Quat)
    ensures
        osc_args_view(final(args)@) == osc_args_view(old(args)@) + pos_rot_args(
            position,
            rotation,
        ),
{
    let ghost prev = osc_args_view(args@);
    push_f_arg(args, position.x);
    push_f_arg(args, position.y);
    push_f_arg(args, position.z);
    push_f_arg(args, rotation.x);
    push_f_arg(args, rotation.y);
    push_f_arg(args, rotation.z);
    push_f_arg(args, rotation.w);
    proof {
        assert(osc_args_view(args@) =~= prev + pos_rot_args(position, rotation));
    }
}

impl RootTransform {
    /// The OSC message carrying this transform.
    pub fn into_osc_message(self) -> (r: OSCMessage)
        ensures
            r@ == root_transform_osc(self),
    {
        let mut args: Vec<OSCType> = Vec::new();
        push_str_arg(&mut args, "root".to_owned());
        push_pos_rot(&mut args, self.position, self.rotation);
        if let (Some(scale), Some(offset)) = (self.scale, self.offset) {
            push_f_arg(&mut args, scale.x);
            push_f_arg(&mut args, scale.y);
            push_f_arg(&mut args, scale.z);
            push_f_arg(&mut args, offset.x);
            push_f_arg(&mut args, offset.y);
            push_f_arg(&mut args, offset.z);
        }
        let r = OSCMessage { addr: "/VMC/Ext/Root/Pos".to_owned(), args };
        proof {
            assert(r@.args =~= root_transform_osc(self).args);
        }
        r
    }
}

impl BoneTransform {
    /// The OSC message carrying this transform.
    pub fn into_osc_message(self) -> (r: OSCMessage)
        ensures
            r@ == bone_transform_osc(self@),
    {
        let ghost sv = self@;
        let mut args: Vec<OSCType> = Vec::new();
        push_str_arg(&mut args, self.bone);
        push_pos_rot(&mut args, self.position, self.rotation);
        let r = OSCMessage { addr: "/VMC/Ext/Bone/Pos".to_owned(), args };
        proof {
            assert(r@.args =~= bone_transform_osc(sv).args);
        }
        r
    }
}

impl DeviceTransform {
    /// The OSC message carrying this transform; the device kind and locality
    /// select one of six address literals.
    pub fn into_osc_message(self) -> (r: OSCMessage)
        ensures
            r@ == device_transform_osc(self@),
    {
        let ghost sv = self@;
        let addr: &str = match (self.device, self.local) {
            (DeviceType::HMD, false) => "/VMC/Ext/Hmd/Pos",
            (DeviceType::HMD, true) => "/VMC/Ext/Hmd/Pos/Local",
            (DeviceType::Controller, false) => "/VMC/Ext/Con/Pos",
            (DeviceType::Controller, true) => "/VMC/Ext/Con/Pos/Local",
            (DeviceType::Tracker, false) => "/VMC/Ext/Tra/Pos",
            (DeviceType::Tracker, true) => "/VMC/Ext/Tra/Pos/Local",
        };
        let mut args: Vec<OSCType> = Vec::new();
        push_str_arg(&mut args, self.joint);
        push_pos_rot(&mut args, self.position, self.rotation);
        let r = OSCMessage { addr: addr.to_owned(), args };
        proof {
            assert(r@.args =~= device_transform_osc(sv).args);
        }
        r
    }
}

impl BlendShape {
    /// The OSC message carrying this blend shape.
    pub fn into_osc_message(self) -> (r: OSCMessage)
        ensures
            r@ == blend_shape_osc(self@),
    {
        let ghost sv = self@;
        let mut args: Vec<OSCType> = Vec::new();
        push_str_arg(&mut args, self.key);
        push_f_arg(&mut args, self.value);
        let r = OSCMessage { addr: "/VMC/Ext/Blend/Val".to_owned(), args };
        proof {
            assert(r@.args =~= blend_shape_osc(sv).args);
        }
        r
    }
}

impl ApplyBlendShapes {
    /// The OSC message applying all previously sent blend shapes.
    pub fn into_osc_message(self) -> (r: OSCMessage)
        ensures
            r@ == (OscMessageView { addr: "/VMC/Ext/Blend/Apply"@, args: Seq::empty() }),
    {
        let args: Vec<OSCType> = Vec::new();
        let r = OSCMessage { addr: "/VMC/Ext/Blend/Apply".to_owned(), args };
        proof {
            assert(r@.args =~= Seq::<OscTypeView>::empty());
        }
        r
    }
}

impl State {
    /// The OSC message carrying this status.
    pub fn into_osc_message(self) -> (r: OSCMessage)
        ensures
            r@ == state_osc(self),
    {
        let mut args: Vec<OSCType> = Vec::new();
        push_i_arg(&mut args, self.model_state.as_i32());
        if let Some((calibration_mode, calibration_state)) = self.calibration_state {
            push_i_arg(&mut args, calibration_state.as_i32());
            push_i_arg(&mut args, calibration_mode.as_i32());
            if let Some(tracking_state) = self.tracking_state {
                push_i_arg(&mut args, tracking_state.as_i32());
            }
        }
        let r = OSCMessage { addr: "/VMC/Ext/OK".to_owned(), args };
        proof {
            assert(r@.args =~= state_osc(self).args);
        }
        r
    }
}

impl Time {
    /// The OSC message carrying this relative time.
    pub fn into_osc_message(self) -> (r: OSCMessage)
        ensures
            r@ == time_osc(self),
    {
        let mut args: Vec<OSCType> = Vec::new();
        push_f_arg(&mut args, self.0);
        let r = OSCMessage { addr: "/VMC/Ext/T".to_owned(), args };
        proof {
            assert(r@.args =~= time_osc(self).args);
        }
        r
    }
}

impl VMCMessage {
    /// The OSC message carrying this VMC message.
    pub fn into_osc_message(self) -> (r: OSCMessage)
        ensures
            r@ == vmc_to_osc(self@),
    {
        match self {
            Self::RootTransform(p) => p.into_osc_message(),
            Self::DeviceTransform(p) => p.into_osc_message(),
            Self::BoneTransform(p) => p.into_osc_message(),
            Self::BlendShape(p) => p.into_osc_message(),
            Self::ApplyBlendShapes => ApplyBlendShapes.into_osc_message(),
            Self::State(p) => p.into_osc_message(),
            Self::Time(p) => p.into_osc_message(),
        }
    }

    /// The OSC message wrapped as a single-message packet.
    pub fn into_osc_packet(self) -> (r: OSCPacket)
        ensures
            r@ == (OscPacketView::Message(vmc_to_osc(self@))),
    {
        OSCPacket::Message(self.into_osc_message())
    }
}

impl RootTransform {
    /// The OSC message wrapped as a single-message packet.
    pub fn into_osc_packet(self) -> (r: OSCPacket)
        ensures
            r@ == (OscPacketView::Message(root_transform_osc(self))),
    {
        OSCPacket::Message(self.into_osc_message())
    }
}

impl BoneTransform {
    /// The OSC message wrapped as a single-message packet.
    pub fn into_osc_packet(self) -> (r: OSCPacket)
        ensures
            r@ == (OscPacketView::Message(bone_transform_osc(self@))),
    {
        OSCPacket::Message(self.into_osc_message())
    }
}

impl DeviceTransform {
    /// The OSC message wrapped as a single-message packet.
    pub fn into_osc_packet(self) -> (r: OSCPacket)
        ensures
            r@ == (OscPacketView::Message(device_transform_osc(self@))),
    {
        OSCPacket::Message(self.into_osc_message())
    }
}

impl BlendShape {
    /// The OSC message wrapped as a single-message packet.
    pub fn into_osc_packet(self) -> (r: OSCPacket)
        ensures
            r@ == (OscPacketView::Message(blend_shape_osc(self@))),
    {
        OSCPacket::Message(self.into_osc_message())
    }
}

impl ApplyBlendShapes {
    /// The OSC message wrapped as a single-message packet.
    pub fn into_osc_packet(self) -> (r: OSCPacket)
        ensures
            r@ == (OscPacketView::Message(
                OscMessageView { addr: "/VMC/Ext/Blend/Apply"@, args: Seq::empty() },
            )),
    {
        OSCPacket::Message(self.into_osc_message())
    }
}

impl State {
    /// The OSC message wrapped as a single-message packet.
    pub fn into_osc_packet(self) -> (r: OSCPacket)
        ensures
            r@ == (OscPacketView::Message(state_osc(self))),
    {
        OSCPacket::Message(self.into_osc_message())
    }
}

impl Time {
    /// The OSC message wrapped as a single-message packet.
    pub fn into_osc_packet(self) -> (r: OSCPacket)
        ensures
            r@ == (OscPacketView::Message(time_osc(self))),
    {
        OSCPacket::Message(self.into_osc_message())
    }
}

// ---------------------------------------------------------------------------
// Parsing: from OSC packets back to VMC messages.
// ---------------------------------------------------------------------------

/// Whether seven consecutive arguments starting at `start` are floats.
pub open spec fn pos_rot_ok(args: Seq<OscTypeView>, start: int) -> bool {
    &&& args[start] is Float
    &&& args[start + 1] is Float
    &&& args[start + 2] is Float
    &&& args[start + 3] is Float
    &&& args[start + 4] is Float
    &&& args[start + 5] is Float
    &&& args[start + 6] is Float
}

/// The position and rotation read from seven consecutive float arguments.
pub open spec fn pos_rot_of(args: Seq<OscTypeView>, start: int) -> (Vec3, Quat) {
    (
        Vec3 {
            x: args[start]->Float_0,
            y: args[start + 1]->Float_0,
            z: args[start + 2]->Float_0,
        },
        Quat {
            x: args[start + 3]->Float_0,
            y: args[start + 4]->Float_0,
            z: args[start + 5]->Float_0,
            w: args[start + 6]->Float_0,
        },
    )
}

/// Whether three consecutive arguments starting at `start` are floats.
pub open spec fn vec3_ok(args: Seq<OscTypeView>, start: int) -> bool {
    &&& args[start] is Float
    &&& args[start + 1] is Float
    &&& args[start + 2] is Float
}

/// The vector read from three consecutive float arguments.
pub open spec fn vec3_of(args: Seq<OscTypeView>, start: int) -> Vec3 {
    Vec3 {
        x: args[start]->Float_0,
        y: args[start + 1]->Float_0,
        z: args[start + 2]->Float_0,
    }
}

/// The error for an address and argument shape no message kind matches.
pub open spec fn unimplemented_err(m: OscMessageView) -> Result<VmcMessageView, VmcErrorView> {
    Err(VmcErrorView::UnimplementedMessage(m.addr, m.args))
}

/// Dispatch of a `/VMC/Ext/Root/Pos` message: a name and exactly seven
/// floats, or a name and at least thirteen floats carrying scale and offset;
/// any other shape is unimplemented.
pub open spec fn parse_root_view(m: OscMessageView) -> Result<VmcMessageView, VmcErrorView> {
    let a = m.args;
    if a.len() == 8 && a[0] is Str && pos_rot_ok(a, 1) {
        let (position, rotation) = pos_rot_of(a, 1);
        Ok(VmcMessageView::RootTransform(
            RootTransform { position, rotation, scale: None, offset: None },
        ))
    } else if a.len() >= 14 && a[0] is Str && pos_rot_ok(a, 1) && vec3_ok(a, 8) && vec3_ok(a, 11) {
        let (position, rotation) = pos_rot_of(a, 1);
        Ok(VmcMessageView::RootTransform(
            RootTransform {
                position,
                rotation,
                scale: Some(vec3_of(a, 8)),
                offset: Some(vec3_of(a, 11)),
            },
        ))
    } else {
        unimplemented_err(m)
    }
}

/// Dispatch of a `/VMC/Ext/Bone/Pos` message: a bone name and exactly seven
/// floats; an unrecognized bone name is its own error.
pub open spec fn parse_bone_view(m: OscMessageView) -> Result<VmcMessageView, VmcErrorView> {
    let a = m.args;
    if a.len() == 8 && a[0] is Str && pos_rot_ok(a, 1) {
        let (position, rotation) = pos_rot_of(a, 1);
        match bone_of_name(a[0]->Str_0) {
            Some(_) => Ok(VmcMessageView::BoneTransform(
                BoneTransformView { bone: a[0]->Str_0, position, rotation },
            )),
            None => Err(VmcErrorView::UnknownBone(a[0]->Str_0)),
        }
    } else {
        unimplemented_err(m)
    }
}

/// Dispatch of a device transform message: a joint name, seven floats, and
/// any trailing arguments ignored.
pub open spec fn parse_device_view(m: OscMessageView, device: DeviceType, local: bool) -> Result<
    VmcMessageView,
    VmcErrorView,
> {
    let a = m.args;
    if a.len() >= 8 && a[0] is Str && pos_rot_ok(a, 1) {
        let (position, rotation) = pos_rot_of(a, 1);
        Ok(VmcMessageView::DeviceTransform(
            DeviceTransformView { device, joint: a[0]->Str_0, position, rotation, local },
        ))
    } else {
        unimplemented_err(m)
    }
}

/// Dispatch of a `/VMC/Ext/Blend/Val` message: a key, a float weight, and
/// any trailing arguments ignored.
pub open spec fn parse_blend_view(m: OscMessageView) -> Result<VmcMessageView, VmcErrorView> {
    let a = m.args;
    if a.len() >= 2 && a[0] is Str && a[1] is Float {
        Ok(VmcMessageView::BlendShape(
            BlendShapeView { key: a[0]->Str_0, value: a[1]->Float_0 },
        ))
    } else {
        unimplemented_err(m)
    }
}

/// Dispatch of a `/VMC/Ext/OK` message: one integer for the model state
/// alone, exactly three for model and calibration, four or more for model,
/// calibration and tracking; each integer must lie in its enumeration's
/// range, checked in the order the state fields are assembled.
pub open spec fn parse_state_view(m: OscMessageView) -> Result<VmcMessageView, VmcErrorView> {
    let a = m.args;
    if a.len() == 1 && a[0] is Int {
        match model_state_of_int(a[0]->Int_0 as int) {
            Some(ms) => Ok(VmcMessageView::State(
                State { model_state: ms, calibration_state: None, tracking_state: None },
            )),
            None => Err(VmcErrorView::UnknownModelState(a[0]->Int_0)),
        }
    } else if a.len() == 3 && a[0] is Int && a[1] is Int && a[2] is Int {
        match model_state_of_int(a[0]->Int_0 as int) {
            None => Err(VmcErrorView::UnknownModelState(a[0]->Int_0)),
            Some(ms) => match calibration_mode_of_int(a[2]->Int_0 as int) {
                None => Err(VmcErrorView::UnknownCalibrationMode(a[2]->Int_0)),
                Some(cm) => match calibration_state_of_int(a[1]->Int_0 as int) {
                    None => Err(VmcErrorView::UnknownCalibrationState(a[1]->Int_0)),
                    Some(cs) => Ok(VmcMessageView::State(
                        State {
                            model_state: ms,
                            calibration_state: Some((cm, cs)),
                            tracking_state: None,
                        },
                    )),
                },
            },
        }
    } else if a.len() >= 4 && a[0] is Int && a[1] is Int && a[2] is Int && a[3] is Int {
        match model_state_of_int(a[0]->Int_0 as int) {
            None => Err(VmcErrorView::UnknownModelState(a[0]->Int_0)),
            Some(ms) => match calibration_mode_of_int(a[2]->Int_0 as int) {
                None => Err(VmcErrorView::UnknownCalibrationMode(a[2]->Int_0)),
                Some(cm) => match calibration_state_of_int(a[1]->Int_0 as int) {
                    None => Err(VmcErrorView::UnknownCalibrationState(a[1]->Int_0)),
                    Some(cs) => match tracking_state_of_int(a[3]->Int_0 as int) {
                        None => Err(VmcErrorView::UnknownTrackingState(a[3]->Int_0)),
                        Some(ts) => Ok(VmcMessageView::State(
                            State {
                                model_state: ms,
                                calibration_state: Some((cm, cs)),
                                tracking_state: Some(ts),
                            },
                        )),
                    },
                },
            },
        }
    } else {
        unimplemented_err(m)
    }
}

/// Dispatch of a `/VMC/Ext/T` message: a float relative time, any trailing
/// arguments ignored.
pub open spec fn parse_time_view(m: OscMessageView) -> Result<VmcMessageView, VmcErrorView> {
    let a = m.args;
    if a.len() >= 1 && a[0] is Float {
        Ok(VmcMessageView::Time(Time(a[0]->Float_0)))
    } else {
        unimplemented_err(m)
    }
}

/// Dispatch of one flat OSC message on its address, then on its argument
/// shape. An address outside the VMC set, or an argument shape no kind
/// accepts, is an unimplemented-message error carrying the address and the
/// full argument list.
pub open spec fn parse_message_view(m: OscMessageView) -> Result<VmcMessageView, VmcErrorView> {
    if m.addr == "/VMC/Ext/Root/Pos"@ {
        parse_root_view(m)
    } else if m.addr == "/VMC/Ext/Bone/Pos"@ {
        parse_bone_view(m)
    } else if m.addr == "/VMC/Ext/Hmd/Pos"@ {
        parse_device_view(m, DeviceType::HMD, false)
    } else if m.addr == "/VMC/Ext/Hmd/Pos/Local"@ {
        parse_device_view(m, DeviceType::HMD, true)
    } else if m.addr == "/VMC/Ext/Con/Pos"@ {
        parse_device_view(m, DeviceType::Controller, false)
    } else if m.addr == "/VMC/Ext/Con/Pos/Local"@ {
        parse_device_view(m, DeviceType::Controller, true)
    } else if m.addr == "/VMC/Ext/Tra/Pos"@ {
        parse_device_view(m, DeviceType::Tracker, false)
    } else if m.addr == "/VMC/Ext/Tra/Pos/Local"@ {
        parse_device_view(m, DeviceType::Tracker, true)
    } else if m.addr == "/VMC/Ext/Blend/Val"@ {
        parse_blend_view(m)
    } else if m.addr == "/VMC/Ext/Blend/Apply"@ {
        Ok(VmcMessageView::ApplyBlendShapes)
    } else if m.addr == "/VMC/Ext/OK"@ {
        parse_state_view(m)
    } else if m.addr == "/VMC/Ext/T"@ {
        parse_time_view(m)
    } else {
        unimplemented_err(m)
    }
}

/// The flat, depth-first, order-preserving sequence of messages in a packet
/// tree: a lone message is a one-element sequence, a bundle expands in
/// document order.
pub open spec fn flatten_view(p: OscPacketView) -> Seq<OscMessageView>
    decreases p,
{
    match p {
        OscPacketView::Message(m) => seq![m],
        OscPacketView::Bundle(b) => flatten_packets_view(b.content),
    }
}

/// The flattening of a sequence of packets, in order.
pub open spec fn flatten_packets_view(s: Seq<OscPacketView>) -> Seq<OscMessageView>
    decreases s,
{
    if s.len() == 0 {
        Seq::empty()
    } else {
        flatten_view(s[0]) + flatten_packets_view(s.drop_first())
    }
}

/// Parsing of a flat message sequence: each message parses independently,
/// and the first failure aborts the whole batch.
pub open spec fn parse_flat_view(s: Seq<OscMessageView>) -> Result<
    Seq<VmcMessageView>,
    VmcErrorView,
>
    decreases s,
{
    if s.len() == 0 {
        Ok(Seq::empty())
    } else {
        match parse_message_view(s[0]) {
            Err(e) => Err(e),
            Ok(v) => match parse_flat_view(s.drop_first()) {
                Err(e) => Err(e),
                Ok(rest) => Ok(seq![v] + rest),
            },
        }
    }
}

/// Parsing of a whole packet: flatten, then parse each flat message.
pub open spec fn parse_packet_view(p: OscPacketView) -> Result<
    Seq<VmcMessageView>,
    VmcErrorView,
> {
    parse_flat_view(flatten_view(p))
}

/// The element-wise view of a message sequence.
pub open spec fn osc_messages_view(s: Seq<OSCMessage>) -> Seq<OscMessageView>
    decreases s,
{
    if s.len() == 0 {
        Seq::empty()
    } else {
        seq![crate::osc::osc_message_view(s[0])] + osc_messages_view(s.drop_first())
    }
}

/// Views distribute over pushing a message.
pub proof fn lemma_osc_messages_view_push(s: Seq<OSCMessage>, m: OSCMessage)
    ensures
        osc_messages_view(s.push(m)) == osc_messages_view(s).push(crate::osc::osc_message_view(m)),
    decreases s,
{
    if s.len() == 0 {
        assert(s.push(m)[0] == m);
        assert(s.push(m).drop_first() =~= Seq::<OSCMessage>::empty());
        assert(osc_messages_view(s) == Seq::<OscMessageView>::empty());
        assert(osc_messages_view(s.push(m).drop_first()) == Seq::<OscMessageView>::empty());
        assert(osc_messages_view(s.push(m)) =~= osc_messages_view(s).push(
            crate::osc::osc_message_view(m),
        ));
    } else {
        assert(s.push(m)[0] == s[0]);
        assert(s.push(m).drop_first() =~= s.drop_first().push(m));
        lemma_osc_messages_view_push(s.drop_first(), m);
        assert(osc_messages_view(s.push(m)) =~= osc_messages_view(s).push(
            crate::osc::osc_message_view(m),
        ));
    }
}

/// The element-wise view of a VMC message sequence.
pub open spec fn vmc_messages_view(s: Seq<VMCMessage>) -> Seq<VmcMessageView>
    decreases s,
{
    if s.len() == 0 {
        Seq::empty()
    } else {
        seq![s[0]@] + vmc_messages_view(s.drop_first())
    }
}

/// Views distribute over pushing a message.
pub proof fn lemma_vmc_messages_view_push(s: Seq<VMCMessage>, m: VMCMessage)
    ensures
        vmc_messages_view(s.push(m)) == vmc_messages_view(s).push(m@),
    decreases s,
{
    if s.len() == 0 {
        assert(s.push(m)[0] == m);
        assert(s.push(m).drop_first() =~= Seq::<VMCMessage>::empty());
        assert(vmc_messages_view(s) == Seq::<VmcMessageView>::empty());
        assert(vmc_messages_view(s.push(m).drop_first()) == Seq::<VmcMessageView>::empty());
        assert(vmc_messages_view(s.push(m)) =~= vmc_messages_view(s).push(m@));
    } else {
        assert(s.push(m)[0] == s[0]);
        assert(s.push(m).drop_first() =~= s.drop_first().push(m));
        lemma_vmc_messages_view_push(s.drop_first(), m);
        assert(vmc_messages_view(s.push(m)) =~= vmc_messages_view(s).push(m@));
    }
}

/// Appends every message of the packet tree, depth-first and in order.
#[verifier::loop_isolation(false)]
fn flatten_into(packet: OSCPacket, out: &mut Vec<OSCMessage>)
    ensures
        osc_messages_view(final(out)@) == osc_messages_view(old(out)@) + flatten_view(packet@),
    decreases packet,
{
    let ghost gp = packet;
    match packet {
        OSCPacket::Message(m) => {
            let ghost prev = out@;
            let ghost gm = m;
            out.push(m);
            proof {
                lemma_osc_messages_view_push(prev, gm);
                assert(osc_messages_view(out@) =~= osc_messages_view(prev) + flatten_view(gp@));
            }
        },
        OSCPacket::Bundle(b) => {
            let ghost gb = b;
            let mut content = b.content;
            let ghost orig = content@;
            let ghost prev = osc_messages_view(out@);
            let ghost target = prev + flatten_view(gp@);
            proof {
                assert(gp@ == OscPacketView::Bundle(gb@));
                assert(flatten_view(gp@) == flatten_packets_view(osc_packets_view(orig)));
            }
            let ghost mut k: int = 0;
            while content.len() > 0
                invariant
                    0 <= k <= orig.len(),
                    content@ == orig.skip(k),
                    osc_messages_view(out@) + flatten_packets_view(osc_packets_view(content@))
                        == target,
                decreases content@.len(),
            {
                let ghost before = content@;
                let pkt = content.remove(0);
                proof {
                    assert(before[0] == orig[k]);
                    assert(pkt == orig[k]);
                    assert(content@ =~= before.drop_first());
                    assert(content@ =~= orig.skip(k + 1));
                    assert(gp->Bundle_0 == gb);
                    assert(decreases_to!(gp => gp->Bundle_0));
                    assert(decreases_to!(gb => gb.content));
                    assert(decreases_to!(gb.content => gb.content@));
                    assert(gb.content@ == orig);
                    assert(decreases_to!(orig => orig[k]));
                    assert(decreases_to!(gp => pkt));
                }
                let ghost out_before = osc_messages_view(out@);
                flatten_into(pkt, out);
                proof {
                    assert(osc_packets_view(before)[0] == crate::osc::osc_packet_view(pkt));
                    assert(osc_packets_view(before).drop_first() =~= osc_packets_view(content@));
                    assert(flatten_packets_view(osc_packets_view(before)) == flatten_view(pkt@)
                        + flatten_packets_view(osc_packets_view(content@)));
                    assert(osc_messages_view(out@) + flatten_packets_view(
                        osc_packets_view(content@),
                    ) =~= target);
                    k = k + 1;
                }
            }
            proof {
                assert(content@.len() == 0);
                assert(osc_packets_view(content@) == Seq::<OscPacketView>::empty());
                assert(flatten_packets_view(osc_packets_view(content@)) == Seq::<
                    OscMessageView,
                >::empty());
                assert(osc_messages_view(out@) =~= target);
            }
        },
    }
}

/// The flat message sequence of a packet tree: bundles expand depth-first,
/// left to right; a lone message stands alone.
fn flatten_packet(packet: OSCPacket) -> (r: Vec<OSCMessage>)
    ensures
        osc_messages_view(r@) == flatten_view(packet@),
{
    let mut out: Vec<OSCMessage> = Vec::new();
    proof {
        assert(osc_messages_view(out@) == Seq::<OscMessageView>::empty());
    }
    flatten_into(packet, &mut out);
    out
}

/// The float bits of an argument, if the argument is a float.
fn arg_float(a: &OSCType) -> (r: Option<u32>)
    ensures
        match a {
            OSCType::Float(x) => r == Some(*x),
            _ => r is None,
        },
{
    match a {
        OSCType::Float(x) => Some(*x),
        _ => None,
    }
}

/// The integer of an argument, if the argument is an integer.
fn arg_int(a: &OSCType) -> (r: Option<i32>)
    ensures
        match a {
            OSCType::Int(x) => r == Some(*x),
            _ => r is None,
        },
{
    match a {
        OSCType::Int(x) => Some(*x),
        _ => None,
    }
}

/// Reads seven consecutive float arguments as a position and rotation.
fn read_pos_rot(args: &Vec<OSCType>, start: usize) -> (r: Option<(Vec3, Quat)>)
    requires
        start + 7 <= args@.len(),
    ensures
        match r {
            Some(pr) => pos_rot_ok(osc_args_view(args@), start as int) && pr == pos_rot_of(
                osc_args_view(args@),
                start as int,
            ),
            None => !pos_rot_ok(osc_args_view(args@), start as int),
        },
{
    proof {
        crate::osc::lemma_osc_args_view(args@);
    }
    let len = args.len();
    assert(start + 7 <= len);
    let px = arg_float(&args[start]);
    let py = arg_float(&args[start + 1]);
    let pz = arg_float(&args[start + 2]);
    let rx = arg_float(&args[start + 3]);
    let ry = arg_float(&args[start + 4]);
    let rz = arg_float(&args[start + 5]);
    let rw = arg_float(&args[start + 6]);
    match (px, py, pz, rx, ry, rz, rw) {
        (Some(px), Some(py), Some(pz), Some(rx), Some(ry), Some(rz), Some(rw)) => Some(
            (Vec3 { x: px, y: py, z: pz }, Quat { x: rx, y: ry, z: rz, w: rw }),
        ),
        _ => None,
    }
}

/// Reads three consecutive float arguments as a vector.
fn read_vec3(args: &Vec<OSCType>, start: usize) -> (r: Option<Vec3>)
    requires
        start + 3 <= args@.len(),
    ensures
        match r {
            Some(v) => vec3_ok(osc_args_view(args@), start as int) && v == vec3_of(
                osc_args_view(args@),
                start as int,
            ),
            None => !vec3_ok(osc_args_view(args@), start as int),
        },
{
    proof {
        crate::osc::lemma_osc_args_view(args@);
    }
    let len = args.len();
    assert(start + 3 <= len);
    let x = arg_float(&args[start]);
    let y = arg_float(&args[start + 1]);
    let z = arg_float(&args[start + 2]);
    match (x, y, z) {
        (Some(x), Some(y), Some(z)) => Some(Vec3 { x, y, z }),
        _ => None,
    }
}

/// The string of the first argument, if it is a string.
fn arg_str(a: &OSCType) -> (r: Option<&String>)
    ensures
        match a {
            OSCType::String(s) => r matches Some(rs) && rs == s,
            _ => r is None,
        },
{
    match a {
        OSCType::String(s) => Some(s),
        _ => None,
    }
}

/// Parses one flat OSC message into the VMC message it carries, or the
/// error its address and argument shape dictate.
#[verifier::rlimit(60)]
fn parse_single(msg: OSCMessage) -> (r: Result<VMCMessage, VMCError>)
    ensures
        match r {
            Ok(v) => parse_message_view(msg@) == Ok::<VmcMessageView, VmcErrorView>(v@),
            Err(e) => parse_message_view(msg@) == Err::<VmcMessageView, VmcErrorView>(e@),
        },
{
    proof {
        crate::osc::lemma_osc_args_view(msg.args@);
    }
    let ghost mv = msg@;
    let mut msg = msg;
    let n = msg.args.len();
    if str_eq(msg.addr.as_str(), "/VMC/Ext/Root/Pos") {
        if n == 8 {
            if arg_str(&msg.args[0]).is_some() {
                if let Some((position, rotation)) = read_pos_rot(&msg.args, 1) {
                    return Ok(VMCMessage::RootTransform(RootTransform::new(position, rotation)));
                }
            }
        } else if n >= 14 {
            if arg_str(&msg.args[0]).is_some() {
                if let Some((position, rotation)) = read_pos_rot(&msg.args, 1) {
                    if let Some(scale) = read_vec3(&msg.args, 8) {
                        if let Some(offset) = read_vec3(&msg.args, 11) {
                            return Ok(VMCMessage::RootTransform(
                                RootTransform::new_mr(position, rotation, scale, offset),
                            ));
                        }
                    }
                }
            }
        }
        Err(VMCError::UnimplementedMessage(msg.addr, msg.args))
    } else if str_eq(msg.addr.as_str(), "/VMC/Ext/Bone/Pos") {
        if n == 8 {
            let bone_known = match arg_str(&msg.args[0]) {
                Some(bone) => Some(StandardVRM0Bone::from_str(bone.as_str()).is_ok()),
                None => None,
            };
            if let Some(known) = bone_known {
                if let Some((position, rotation)) = read_pos_rot(&msg.args, 1) {
                    if let OSCType::String(bone) = msg.args.remove(0) {
                        if known {
                            return Ok(VMCMessage::BoneTransform(
                                BoneTransform { bone, position, rotation },
                            ));
                        } else {
                            return Err(VMCError::UnknownBone(bone));
                        }
                    }
                }
            }
        }
        Err(VMCError::UnimplementedMessage(msg.addr, msg.args))
    } else if str_eq(msg.addr.as_str(), "/VMC/Ext/Hmd/Pos") {
        parse_device(msg, DeviceType::HMD, false)
    } else if str_eq(msg.addr.as_str(), "/VMC/Ext/Hmd/Pos/Local") {
        parse_device(msg, DeviceType::HMD, true)
    } else if str_eq(msg.addr.as_str(), "/VMC/Ext/Con/Pos") {
        parse_device(msg, DeviceType::Controller, false)
    } else if str_eq(msg.addr.as_str(), "/VMC/Ext/Con/Pos/Local") {
        parse_device(msg, DeviceType::Controller, true)
    } else if str_eq(msg.addr.as_str(), "/VMC/Ext/Tra/Pos") {
        parse_device(msg, DeviceType::Tracker, false)
    } else if str_eq(msg.addr.as_str(), "/VMC/Ext/Tra/Pos/Local") {
        parse_device(msg, DeviceType::Tracker, true)
    } else if str_eq(msg.addr.as_str(), "/VMC/Ext/Blend/Val") {
        if n >= 2 {
            let is_str = matches!(&msg.args[0], OSCType::String(_));
            let value = arg_float(&msg.args[1]);
            if let (true, Some(value)) = (is_str, value) {
                if let OSCType::String(key) = msg.args.remove(0) {
                    return Ok(VMCMessage::BlendShape(BlendShape { key, value }));
                }
            }
        }
        Err(VMCError::UnimplementedMessage(msg.addr, msg.args))
    } else if str_eq(msg.addr.as_str(), "/VMC/Ext/Blend/Apply") {
        Ok(VMCMessage::ApplyBlendShapes)
    } else if str_eq(msg.addr.as_str(), "/VMC/Ext/OK") {
        parse_state(msg)
    } else if str_eq(msg.addr.as_str(), "/VMC/Ext/T") {
        if n >= 1 {
            if let Some(time) = arg_float(&msg.args[0]) {
                return Ok(VMCMessage::Time(Time(time)));
            }
        }
        Err(VMCError::UnimplementedMessage(msg.addr, msg.args))
    } else {
        Err(VMCError::UnimplementedMessage(msg.addr, msg.args))
    }
}

/// Parses a device transform message for the given device kind and
/// locality.
fn parse_device(msg: OSCMessage, device: DeviceType, local: bool) -> (r: Result<
    VMCMessage,
    VMCError,
>)
    ensures
        match r {
            Ok(v) => parse_device_view(msg@, device, local) == Ok::<
                VmcMessageView,
                VmcErrorView,
            >(v@),
            Err(e) => parse_device_view(msg@, device, local) == Err::<
                VmcMessageView,
                VmcErrorView,
            >(e@),
        },
{
    proof {
        crate::osc::lemma_osc_args_view(msg.args@);
    }
    let mut msg = msg;
    let n = msg.args.len();
    if n >= 8 {
        if let Some((position, rotation)) = read_pos_rot(&msg.args, 1) {
            let is_str = matches!(&msg.args[0], OSCType::String(_));
            if is_str {
                if let OSCType::String(joint) = msg.args.remove(0) {
                    return Ok(VMCMessage::DeviceTransform(
                        DeviceTransform { device, joint, position, rotation, local },
                    ));
                }
            }
        }
    }
    Err(VMCError::UnimplementedMessage(msg.addr, msg.args))
}

/// Parses a `/VMC/Ext/OK` state message.
fn parse_state(msg: OSCMessage) -> (r: Result<VMCMessage, VMCError>)
    ensures
        match r {
            Ok(v) => parse_state_view(msg@) == Ok::<VmcMessageView, VmcErrorView>(v@),
            Err(e) => parse_state_view(msg@) == Err::<VmcMessageView, VmcErrorView>(e@),
        },
{
    proof {
        crate::osc::lemma_osc_args_view(msg.args@);
    }
    let n = msg.args.len();
    if n == 1 {
        if let Some(x) = arg_int(&msg.args[0]) {
            return match ModelState::try_from(x) {
                Ok(ms) => Ok(VMCMessage::State(State::new(ms))),
                Err(v) => Err(VMCError::UnknownModelState(v)),
            };
        }
    } else if n == 3 {
        let a0 = arg_int(&msg.args[0]);
        let a1 = arg_int(&msg.args[1]);
        let a2 = arg_int(&msg.args[2]);
        if let (Some(x0), Some(x1), Some(x2)) = (a0, a1, a2) {
            let ms = match ModelState::try_from(x0) {
                Ok(ms) => ms,
                Err(v) => {
                    return Err(VMCError::UnknownModelState(v));
                },
            };
            let cm = match CalibrationMode::try_from(x2) {
                Ok(cm) => cm,
                Err(v) => {
                    return Err(VMCError::UnknownCalibrationMode(v));
                },
            };
            let cs = match CalibrationState::try_from(x1) {
                Ok(cs) => cs,
                Err(v) => {
                    return Err(VMCError::UnknownCalibrationState(v));
                },
            };
            return Ok(VMCMessage::State(State::new_calibration(ms, cm, cs)));
        }
    } else if n >= 4 {
        let a0 = arg_int(&msg.args[0]);
        let a1 = arg_int(&msg.args[1]);
        let a2 = arg_int(&msg.args[2]);
        let a3 = arg_int(&msg.args[3]);
        if let (Some(x0), Some(x1), Some(x2), Some(x3)) = (a0, a1, a2, a3) {
            let ms = match ModelState::try_from(x0) {
                Ok(ms) => ms,
                Err(v) => {
                    return Err(VMCError::UnknownModelState(v));
                },
            };
            let cm = match CalibrationMode::try_from(x2) {
                Ok(cm) => cm,
                Err(v) => {
                    return Err(VMCError::UnknownCalibrationMode(v));
                },
            };
            let cs = match CalibrationState::try_from(x1) {
                Ok(cs) => cs,
                Err(v) => {
                    return Err(VMCError::UnknownCalibrationState(v));
                },
            };
            let ts = match TrackingState::try_from(x3) {
                Ok(ts) => ts,
                Err(v) => {
                    return Err(VMCError::UnknownTrackingState(v));
                },
            };
            return Ok(VMCMessage::State(State::new_tracking(ms, cm, cs, ts)));
        }
    }
    Err(VMCError::UnimplementedMessage(msg.addr, msg.args))
}

/// Parses an OSC packet into the VMC messages it carries: bundles are
/// flattened depth-first in document order, each flat message is dispatched
/// independently, and the first failing message aborts the batch with its
/// error.
#[verifier::loop_isolation(false)]
pub fn parse(osc_packet: OSCPacket) -> (r: VMCResult<Vec<VMCMessage>>)
    ensures
        match r {
            Ok(msgs) => parse_packet_view(osc_packet@) == Ok::<
                Seq<VmcMessageView>,
                VmcErrorView,
            >(vmc_messages_view(msgs@)),
            Err(e) => parse_packet_view(osc_packet@) == Err::<
                Seq<VmcMessageView>,
                VmcErrorView,
            >(e@),
        },
{
    let ghost full = flatten_view(osc_packet@);
    let mut msgs = flatten_packet(osc_packet);
    let mut out: Vec<VMCMessage> = Vec::new();
    proof {
        assert(osc_messages_view(msgs@) == full);
        assert(vmc_messages_view(out@) == Seq::<VmcMessageView>::empty());
    }
    while msgs.len() > 0
        invariant
            ({
                match parse_flat_view(osc_messages_view(msgs@)) {
                    Ok(rest) => parse_flat_view(full) == Ok::<
                        Seq<VmcMessageView>,
                        VmcErrorView,
                    >(vmc_messages_view(out@) + rest),
                    Err(e) => parse_flat_view(full) == Err::<Seq<VmcMessageView>, VmcErrorView>(e),
                }
            }),
        decreases msgs@.len(),
    {
        let ghost before = msgs@;
        let m = msgs.remove(0);
        proof {
            assert(m == before[0]);
            assert(msgs@ =~= before.drop_first());
        }
        let ghost gm = m;
        match parse_single(m) {
            Ok(v) => {
                let ghost prev_out = out@;
                let ghost gv = v;
                out.push(v);
                proof {
                    lemma_vmc_messages_view_push(prev_out, gv);
                    assert(osc_messages_view(before)[0] == gm@);
                    assert(osc_messages_view(before).drop_first() =~= osc_messages_view(msgs@));
                    if parse_flat_view(osc_messages_view(msgs@)) is Ok {
                        let rest = parse_flat_view(osc_messages_view(msgs@))->Ok_0;
                        assert(vmc_messages_view(prev_out) + (seq![gv@] + rest)
                            =~= vmc_messages_view(out@) + rest);
                    }
                }
            },
            Err(e) => {
                proof {
                    assert(osc_messages_view(before)[0] == gm@);
                    assert(parse_flat_view(osc_messages_view(before)) == Err::<
                        Seq<VmcMessageView>,
                        VmcErrorView,
                    >(e@));
                    assert(parse_flat_view(full) == Err::<Seq<VmcMessageView>, VmcErrorView>(e@));
                    assert(parse_packet_view(osc_packet@) == Err::<
                        Seq<VmcMessageView>,
                        VmcErrorView,
                    >(e@));
                }
                return Err(e);
            },
        }
    }
    proof {
        assert(osc_messages_view(msgs@) == Seq::<OscMessageView>::empty());
        assert(parse_flat_view(osc_messages_view(msgs@)) == Ok::<
            Seq<VmcMessageView>,
            VmcErrorView,
        >(Seq::<VmcMessageView>::empty()));
        assert(vmc_messages_view(out@) + Seq::<VmcMessageView>::empty() =~= vmc_messages_view(
            out@,
        ));
    }
    Ok(out)
}

// ---------------------------------------------------------------------------
// The round-trip law.
// ---------------------------------------------------------------------------

/// A VMC message whose optional parts can survive the trip onto the wire:
/// scale and offset travel as a pair, tracking state only rides along with
/// the calibration pair, and a bone transform names a standard bone.
pub open spec fn vmc_wf(v: VmcMessageView) -> bool {
    match v {
        VmcMessageView::RootTransform(t) => t.scale is Some <==> t.offset is Some,
        VmcMessageView::BoneTransform(b) => bone_of_name(b.bone) is Some,
        VmcMessageView::State(s) => s.tracking_state is Some ==> s.calibration_state is Some,
        _ => true,
    }
}

/// Round-trip law: parsing the OSC form of any well-formed VMC message
/// yields exactly that message.
#[verifier::rlimit(100)]
#[verifier::spinoff_prover]
pub proof fn lemma_vmc_roundtrip(v: VmcMessageView)
    requires
        vmc_wf(v),
    ensures
        parse_message_view(vmc_to_osc(v)) == Ok::<VmcMessageView, VmcErrorView>(v),
{
    reveal_strlit("/VMC/Ext/Root/Pos");
    reveal_strlit("/VMC/Ext/Bone/Pos");
    reveal_strlit("/VMC/Ext/Hmd/Pos");
    reveal_strlit("/VMC/Ext/Hmd/Pos/Local");
    reveal_strlit("/VMC/Ext/Con/Pos");
    reveal_strlit("/VMC/Ext/Con/Pos/Local");
    reveal_strlit("/VMC/Ext/Tra/Pos");
    reveal_strlit("/VMC/Ext/Tra/Pos/Local");
    reveal_strlit("/VMC/Ext/Blend/Val");
    reveal_strlit("/VMC/Ext/Blend/Apply");
    reveal_strlit("/VMC/Ext/OK");
    reveal_strlit("/VMC/Ext/T");
    assert("/VMC/Ext/Root/Pos"@[9] != "/VMC/Ext/Bone/Pos"@[9]);
    assert("/VMC/Ext/Root/Pos"@.len() != "/VMC/Ext/Hmd/Pos"@.len());
    assert("/VMC/Ext/Root/Pos"@.len() != "/VMC/Ext/Hmd/Pos/Local"@.len());
    assert("/VMC/Ext/Root/Pos"@.len() != "/VMC/Ext/Con/Pos"@.len());
    assert("/VMC/Ext/Root/Pos"@.len() != "/VMC/Ext/Con/Pos/Local"@.len());
    assert("/VMC/Ext/Root/Pos"@.len() != "/VMC/Ext/Tra/Pos"@.len());
    assert("/VMC/Ext/Root/Pos"@.len() != "/VMC/Ext/Tra/Pos/Local"@.len());
    assert("/VMC/Ext/Root/Pos"@.len() != "/VMC/Ext/Blend/Val"@.len());
    assert("/VMC/Ext/Root/Pos"@.len() != "/VMC/Ext/Blend/Apply"@.len());
    assert("/VMC/Ext/Root/Pos"@.len() != "/VMC/Ext/OK"@.len());
    assert("/VMC/Ext/Root/Pos"@.len() != "/VMC/Ext/T"@.len());
    assert("/VMC/Ext/Bone/Pos"@.len() != "/VMC/Ext/Hmd/Pos"@.len());
    assert("/VMC/Ext/Bone/Pos"@.len() != "/VMC/Ext/Hmd/Pos/Local"@.len());
    assert("/VMC/Ext/Bone/Pos"@.len() != "/VMC/Ext/Con/Pos"@.len());
    assert("/VMC/Ext/Bone/Pos"@.len() != "/VMC/Ext/Con/Pos/Local"@.len());
    assert("/VMC/Ext/Bone/Pos"@.len() != "/VMC/Ext/Tra/Pos"@.len());
    assert("/VMC/Ext/Bone/Pos"@.len() != "/VMC/Ext/Tra/Pos/Local"@.len());
    assert("/VMC/Ext/Bone/Pos"@.len() != "/VMC/Ext/Blend/Val"@.len());
    assert("/VMC/Ext/Bone/Pos"@.len() != "/VMC/Ext/Blend/Apply"@.len());
    assert("/VMC/Ext/Bone/Pos"@.len() != "/VMC/Ext/OK"@.len());
    assert("/VMC/Ext/Bone/Pos"@.len() != "/VMC/Ext/T"@.len());
    assert("/VMC/Ext/Hmd/Pos"@.len() != "/VMC/Ext/Hmd/Pos/Local"@.len());
    assert("/VMC/Ext/Hmd/Pos"@[9] != "/VMC/Ext/Con/Pos"@[9]);
    assert("/VMC/Ext/Hmd/Pos"@.len() != "/VMC/Ext/Con/Pos/Local"@.len());
    assert("/VMC/Ext/Hmd/Pos"@[9] != "/VMC/Ext/Tra/Pos"@[9]);
    assert("/VMC/Ext/Hmd/Pos"@.len() != "/VMC/Ext/Tra/Pos/Local"@.len());
    assert("/VMC/Ext/Hmd/Pos"@.len() != "/VMC/Ext/Blend/Val"@.len());
    assert("/VMC/Ext/Hmd/Pos"@.len() != "/VMC/Ext/Blend/Apply"@.len());
    assert("/VMC/Ext/Hmd/Pos"@.len() != "/VMC/Ext/OK"@.len());
    assert("/VMC/Ext/Hmd/Pos"@.len() != "/VMC/Ext/T"@.len());
    assert("/VMC/Ext/Hmd/Pos/Local"@.len() != "/VMC/Ext/Con/Pos"@.len());
    assert("/VMC/Ext/Hmd/Pos/Local"@[9] != "/VMC/Ext/Con/Pos/Local"@[9]);
    assert("/VMC/Ext/Hmd/Pos/Local"@.len() != "/VMC/Ext/Tra/Pos"@.len());
    assert("/VMC/Ext/Hmd/Pos/Local"@[9] != "/VMC/Ext/Tra/Pos/Local"@[9]);
    assert("/VMC/Ext/Hmd/Pos/Local"@.len() != "/VMC/Ext/Blend/Val"@.len());
    assert("/VMC/Ext/Hmd/Pos/Local"@.len() != "/VMC/Ext/Blend/Apply"@.len());
    assert("/VMC/Ext/Hmd/Pos/Local"@.len() != "/VMC/Ext/OK"@.len());
    assert("/VMC/Ext/Hmd/Pos/Local"@.len() != "/VMC/Ext/T"@.len());
    assert("/VMC/Ext/Con/Pos"@.len() != "/VMC/Ext/Con/Pos/Local"@.len());
    assert("/VMC/Ext/Con/Pos"@[9] != "/VMC/Ext/Tra/Pos"@[9]);
    assert("/VMC/Ext/Con/Pos"@.len() != "/VMC/Ext/Tra/Pos/Local"@.len());
    assert("/VMC/Ext/Con/Pos"@.len() != "/VMC/Ext/Blend/Val"@.len());
    assert("/VMC/Ext/Con/Pos"@.len() != "/VMC/Ext/Blend/Apply"@.len());
    assert("/VMC/Ext/Con/Pos"@.len() != "/VMC/Ext/OK"@.len());
    assert("/VMC/Ext/Con/Pos"@.len() != "/VMC/Ext/T"@.len());
    assert("/VMC/Ext/Con/Pos/Local"@.len() != "/VMC/Ext/Tra/Pos"@.len());
    assert("/VMC/Ext/Con/Pos/Local"@[9] != "/VMC/Ext/Tra/Pos/Local"@[9]);
    assert("/VMC/Ext/Con/Pos/Local"@.len() != "/VMC/Ext/Blend/Val"@.len());
    assert("/VMC/Ext/Con/Pos/Local"@.len() != "/VMC/Ext/Blend/Apply"@.len());
    assert("/VMC/Ext/Con/Pos/Local"@.len() != "/VMC/Ext/OK"@.len());
    assert("/VMC/Ext/Con/Pos/Local"@.len() != "/VMC/Ext/T"@.len());
    assert("/VMC/Ext/Tra/Pos"@.len() != "/VMC/Ext/Tra/Pos/Local"@.len());
    assert("/VMC/Ext/Tra/Pos"@.len() != "/VMC/Ext/Blend/Val"@.len());
    assert("/VMC/Ext/Tra/Pos"@.len() != "/VMC/Ext/Blend/Apply"@.len());
    assert("/VMC/Ext/Tra/Pos"@.len() != "/VMC/Ext/OK"@.len());
    assert("/VMC/Ext/Tra/Pos"@.len() != "/VMC/Ext/T"@.len());
    assert("/VMC/Ext/Tra/Pos/Local"@.len() != "/VMC/Ext/Blend/Val"@.len());
    assert("/VMC/Ext/Tra/Pos/Local"@.len() != "/VMC/Ext/Blend/Apply"@.len());
    assert("/VMC/Ext/Tra/Pos/Local"@.len() != "/VMC/Ext/OK"@.len());
    assert("/VMC/Ext/Tra/Pos/Local"@.len() != "/VMC/Ext/T"@.len());
    assert("/VMC/Ext/Blend/Val"@.len() != "/VMC/Ext/Blend/Apply"@.len());
    assert("/VMC/Ext/Blend/Val"@.len() != "/VMC/Ext/OK"@.len());
    assert("/VMC/Ext/Blend/Val"@.len() != "/VMC/Ext/T"@.len());
    assert("/VMC/Ext/Blend/Apply"@.len() != "/VMC/Ext/OK"@.len());
    assert("/VMC/Ext/Blend/Apply"@.len() != "/VMC/Ext/T"@.len());
    assert("/VMC/Ext/OK"@.len() != "/VMC/Ext/T"@.len());
    match v {
        VmcMessageView::RootTransform(t) => {
            if t.scale is Some && t.offset is Some {
                assert(parse_message_view(vmc_to_osc(v)) == Ok::<VmcMessageView, VmcErrorView>(v));
            } else {
                assert(parse_message_view(vmc_to_osc(v)) == Ok::<VmcMessageView, VmcErrorView>(v));
            }
        },
        VmcMessageView::BoneTransform(b) => {
            assert(parse_message_view(vmc_to_osc(v)) == Ok::<VmcMessageView, VmcErrorView>(v));
        },
        VmcMessageView::DeviceTransform(t) => {
            match t.device {
                DeviceType::HMD => {
                    assert(parse_message_view(vmc_to_osc(v)) == Ok::<
                        VmcMessageView,
                        VmcErrorView,
                    >(v));
                },
                DeviceType::Controller => {
                    assert(parse_message_view(vmc_to_osc(v)) == Ok::<
                        VmcMessageView,
                        VmcErrorView,
                    >(v));
                },
                DeviceType::Tracker => {
                    assert(parse_message_view(vmc_to_osc(v)) == Ok::<
                        VmcMessageView,
                        VmcErrorView,
                    >(v));
                },
            }
        },
        VmcMessageView::BlendShape(b) => {
            assert(parse_message_view(vmc_to_osc(v)) == Ok::<VmcMessageView, VmcErrorView>(v));
        },
        VmcMessageView::ApplyBlendShapes => {
            assert(parse_message_view(vmc_to_osc(v)) == Ok::<VmcMessageView, VmcErrorView>(v));
        },
        VmcMessageView::State(s) => {
            model_state_int_roundtrip(s.model_state);
            match s.calibration_state {
                Some(c) => {
                    calibration_mode_int_roundtrip(c.0);
                    calibration_state_int_roundtrip(c.1);
                    match s.tracking_state {
                        Some(ts) => {
                            tracking_state_int_roundtrip(ts);
                            assert(parse_message_view(vmc_to_osc(v)) == Ok::<
                                VmcMessageView,
                                VmcErrorView,
                            >(v));
                        },
                        None => {
                            assert(parse_message_view(vmc_to_osc(v)) == Ok::<
                                VmcMessageView,
                                VmcErrorView,
                            >(v));
                        },
                    }
                },
                None => {
                    assert(parse_message_view(vmc_to_osc(v)) == Ok::<
                        VmcMessageView,
                        VmcErrorView,
                    >(v));
                },
            }
        },
        VmcMessageView::Time(t) => {
            assert(parse_message_view(vmc_to_osc(v)) == Ok::<VmcMessageView, VmcErrorView>(v));
        },
    }
}

/// Round-trip law at packet level: parsing the single-message packet built
/// from a well-formed VMC message yields exactly that one message.
pub proof fn lemma_vmc_packet_roundtrip(v: VmcMessageView)
    requires
        vmc_wf(v),
    ensures
        parse_packet_view(OscPacketView::Message(vmc_to_osc(v))) == Ok::<
            Seq<VmcMessageView>,
            VmcErrorView,
        >(seq![v]),
{
    lemma_vmc_roundtrip(v);
    let m = vmc_to_osc(v);
    assert(flatten_view(OscPacketView::Message(m)) == seq![m]);
    assert(seq![m][0] == m);
    assert(seq![m].drop_first() =~= Seq::<OscMessageView>::empty());
    assert(parse_flat_view(seq![m].drop_first()) == Ok::<Seq<VmcMessageView>, VmcErrorView>(
        Seq::<VmcMessageView>::empty(),
    ));
    assert(seq![v] + Seq::<VmcMessageView>::empty() =~= seq![v]);
}

} // verus!

//! The closed enumerations of the VMC layer: standard bone names, device
//! kinds, standard blend-shape names, and the small integer-coded state
//! enumerations, each with its fixed, round-tripping encoding.

use crate::strutil::str_eq;
use vstd::prelude::*;

verus! {

broadcast use vstd::string::group_string_axioms;


/// Standard bones used by VRM 0.x avatars.
#[derive(Debug, Clone, Copy, PartialEq, Eq, Structural, Hash)]
pub enum StandardVRM0Bone {
    Hips,
    LeftUpperLeg,
    RightUpperLeg,
    LeftLowerLeg,
    RightLowerLeg,
    LeftFoot,
    RightFoot,
    Pelvis,
    Spine,
    Chest,
    UpperChest,
    Neck,
    Head,
    LeftShoulder,
    RightShoulder,
    LeftUpperArm,
    RightUpperArm,
    LeftLowerArm,
    RightLowerArm,
    LeftHand,
    RightHand,
    LeftToes,
    RightToes,
    LeftEye,
    RightEye,
    Jaw,
    LeftThumbProximal,
    LeftThumbIntermediate,
    LeftThumbDistal,
    LeftIndexProximal,
    LeftIndexIntermediate,
    LeftIndexDistal,
    LeftMiddleProximal,
    LeftMiddleIntermediate,
    LeftMiddleDistal,
    LeftRingProximal,
    LeftRingIntermediate,
    LeftRingDistal,
    LeftLittleProximal,
    LeftLittleIntermediate,
    LeftLittleDistal,
    RightThumbProximal,
    RightThumbIntermediate,
    RightThumbDistal,
    RightIndexProximal,
    RightIndexIntermediate,
    RightIndexDistal,
    RightMiddleProximal,
    RightMiddleIntermediate,
    RightMiddleDistal,
    RightRingProximal,
    RightRingIntermediate,
    RightRingDistal,
    RightLittleProximal,
    RightLittleIntermediate,
    RightLittleDistal,
}

/// The fixed string encoding of a `StandardVRM0Bone`.
pub open spec fn bone_name(v: StandardVRM0Bone) -> Seq<char> {
    match v {
        StandardVRM0Bone::Hips => "Hips"@,
        StandardVRM0Bone::LeftUpperLeg => "LeftUpperLeg"@,
        StandardVRM0Bone::RightUpperLeg => "RightUpperLeg"@,
        StandardVRM0Bone::LeftLowerLeg => "LeftLowerLeg"@,
        StandardVRM0Bone::RightLowerLeg => "RightLowerLeg"@,
        StandardVRM0Bone::LeftFoot => "LeftFoot"@,
        StandardVRM0Bone::RightFoot => "RightFoot"@,
        StandardVRM0Bone::Pelvis => "Pelvis"@,
        StandardVRM0Bone::Spine => "Spine"@,
        StandardVRM0Bone::Chest => "Chest"@,
        StandardVRM0Bone::UpperChest => "UpperChest"@,
        StandardVRM0Bone::Neck => "Neck"@,
        StandardVRM0Bone::Head => "Head"@,
        StandardVRM0Bone::LeftShoulder => "LeftShoulder"@,
        StandardVRM0Bone::RightShoulder => "RightShoulder"@,
        StandardVRM0Bone::LeftUpperArm => "LeftUpperArm"@,
        StandardVRM0Bone::RightUpperArm => "RightUpperArm"@,
        StandardVRM0Bone::LeftLowerArm => "LeftLowerArm"@,
        StandardVRM0Bone::RightLowerArm => "RightLowerArm"@,
        StandardVRM0Bone::LeftHand => "LeftHand"@,
        StandardVRM0Bone::RightHand => "RightHand"@,
        StandardVRM0Bone::LeftToes => "LeftToes"@,
        StandardVRM0Bone::RightToes => "RightToes"@,
        StandardVRM0Bone::LeftEye => "LeftEye"@,
        StandardVRM0Bone::RightEye => "RightEye"@,
        StandardVRM0Bone::Jaw => "Jaw"@,
        StandardVRM0Bone::LeftThumbProximal => "LeftThumbProximal"@,
        StandardVRM0Bone::LeftThumbIntermediate => "LeftThumbIntermediate"@,
        StandardVRM0Bone::LeftThumbDistal => "LeftThumbDistal"@,
        StandardVRM0Bone::LeftIndexProximal => "LeftIndexProximal"@,
        StandardVRM0Bone::LeftIndexIntermediate => "LeftIndexIntermediate"@,
        StandardVRM0Bone::LeftIndexDistal => "LeftIndexDistal"@,
        StandardVRM0Bone::LeftMiddleProximal => "LeftMiddleProximal"@,
        StandardVRM0Bone::LeftMiddleIntermediate => "LeftMiddleIntermediate"@,
        StandardVRM0Bone::LeftMiddleDistal => "LeftMiddleDistal"@,
        StandardVRM0Bone::LeftRingProximal => "LeftRingProximal"@,
        StandardVRM0Bone::LeftRingIntermediate => "LeftRingIntermediate"@,
        StandardVRM0Bone::LeftRingDistal => "LeftRingDistal"@,
        StandardVRM0Bone::LeftLittleProximal => "LeftLittleProximal"@,
        StandardVRM0Bone::LeftLittleIntermediate => "LeftLittleIntermediate"@,
        StandardVRM0Bone::LeftLittleDistal => "LeftLittleDistal"@,
        StandardVRM0Bone::RightThumbProximal => "RightThumbProximal"@,
        StandardVRM0Bone::RightThumbIntermediate => "RightThumbIntermediate"@,
        StandardVRM0Bone::RightThumbDistal => "RightThumbDistal"@,
        StandardVRM0Bone::RightIndexProximal => "RightIndexProximal"@,
        StandardVRM0Bone::RightIndexIntermediate => "RightIndexIntermediate"@,
        StandardVRM0Bone::RightIndexDistal => "RightIndexDistal"@,
        StandardVRM0Bone::RightMiddleProximal => "RightMiddleProximal"@,
        StandardVRM0Bone::RightMiddleIntermediate => "RightMiddleIntermediate"@,
        StandardVRM0Bone::RightMiddleDistal => "RightMiddleDistal"@,
        StandardVRM0Bone::RightRingProximal => "RightRingProximal"@,
        StandardVRM0Bone::RightRingIntermediate => "RightRingIntermediate"@,
        StandardVRM0Bone::RightRingDistal => "RightRingDistal"@,
        StandardVRM0Bone::RightLittleProximal => "RightLittleProximal"@,
        StandardVRM0Bone::RightLittleIntermediate => "RightLittleIntermediate"@,
        StandardVRM0Bone::RightLittleDistal => "RightLittleDistal"@,
    }
}

/// The value encoded by a string, if the string is one of the fixed
/// names; the names are grouped by length.
pub open spec fn bone_of_name(s: Seq<char>) -> Option<StandardVRM0Bone> {
    if s.len() == 4 {
        if s == "Hips"@ {
            Some(StandardVRM0Bone::Hips)
        } else if s == "Neck"@ {
            Some(StandardVRM0Bone::Neck)
        } else if s == "Head"@ {
            Some(StandardVRM0Bone::Head)
        } else {
            None
        }
    } else if s.len() == 12 {
        if s == "LeftUpperLeg"@ {
            Some(StandardVRM0Bone::LeftUpperLeg)
        } else if s == "LeftLowerLeg"@ {
            Some(StandardVRM0Bone::LeftLowerLeg)
        } else if s == "LeftShoulder"@ {
            Some(StandardVRM0Bone::LeftShoulder)
        } else if s == "LeftUpperArm"@ {
            Some(StandardVRM0Bone::LeftUpperArm)
        } else if s == "LeftLowerArm"@ {
            Some(StandardVRM0Bone::LeftLowerArm)
        } else {
            None
        }
    } else if s.len() == 13 {
        if s == "RightUpperLeg"@ {
            Some(StandardVRM0Bone::RightUpperLeg)
        } else if s == "RightLowerLeg"@ {
            Some(StandardVRM0Bone::RightLowerLeg)
        } else if s == "RightShoulder"@ {
            Some(StandardVRM0Bone::RightShoulder)
        } else if s == "RightUpperArm"@ {
            Some(StandardVRM0Bone::RightUpperArm)
        } else if s == "RightLowerArm"@ {
            Some(StandardVRM0Bone::RightLowerArm)
        } else {
            None
        }
    } else if s.len() == 8 {
        if s == "LeftFoot"@ {
            Some(StandardVRM0Bone::LeftFoot)
        } else if s == "LeftHand"@ {
            Some(StandardVRM0Bone::LeftHand)
        } else if s == "LeftToes"@ {
            Some(StandardVRM0Bone::LeftToes)
        } else if s == "RightEye"@ {
            Some(StandardVRM0Bone::RightEye)
        } else {
            None
        }
    } else if s.len() == 9 {
        if s == "RightFoot"@ {
            Some(StandardVRM0Bone::RightFoot)
        } else if s == "RightHand"@ {
            Some(StandardVRM0Bone::RightHand)
        } else if s == "RightToes"@ {
            Some(StandardVRM0Bone::RightToes)
        } else {
            None
        }
    } else if s.len() == 6 {
        if s == "Pelvis"@ {
            Some(StandardVRM0Bone::Pelvis)
        } else {
            None
        }
    } else if s.len() == 5 {
        if s == "Spine"@ {
            Some(StandardVRM0Bone::Spine)
        } else if s == "Chest"@ {
            Some(StandardVRM0Bone::Chest)
        } else {
            None
        }
    } else if s.len() == 10 {
        if s == "UpperChest"@ {
            Some(StandardVRM0Bone::UpperChest)
        } else {
            None
        }
    } else if s.len() == 7 {
        if s == "LeftEye"@ {
            Some(StandardVRM0Bone::LeftEye)
        } else {
            None
        }
    } else if s.len() == 3 {
        if s == "Jaw"@ {
            Some(StandardVRM0Bone::Jaw)
        } else {
            None
        }
    } else if s.len() == 17 {
        if s == "LeftThumbProximal"@ {
            Some(StandardVRM0Bone::LeftThumbProximal)
        } else if s == "LeftIndexProximal"@ {
            Some(StandardVRM0Bone::LeftIndexProximal)
        } else if s == "RightMiddleDistal"@ {
            Some(StandardVRM0Bone::RightMiddleDistal)
        } else if s == "RightRingProximal"@ {
            Some(StandardVRM0Bone::RightRingProximal)
        } else if s == "RightLittleDistal"@ {
            Some(StandardVRM0Bone::RightLittleDistal)
        } else {
            None
        }
    } else if s.len() == 21 {
        if s == "LeftThumbIntermediate"@ {
            Some(StandardVRM0Bone::LeftThumbIntermediate)
        } else if s == "LeftIndexIntermediate"@ {
            Some(StandardVRM0Bone::LeftIndexIntermediate)
        } else if s == "RightRingIntermediate"@ {
            Some(StandardVRM0Bone::RightRingIntermediate)
        } else {
            None
        }
    } else if s.len() == 15 {
        if s == "LeftThumbDistal"@ {
            Some(StandardVRM0Bone::LeftThumbDistal)
        } else if s == "LeftIndexDistal"@ {
            Some(StandardVRM0Bone::LeftIndexDistal)
        } else if s == "RightRingDistal"@ {
            Some(StandardVRM0Bone::RightRingDistal)
        } else {
            None
        }
    } else if s.len() == 18 {
        if s == "LeftMiddleProximal"@ {
            Some(StandardVRM0Bone::LeftMiddleProximal)
        } else if s == "LeftLittleProximal"@ {
            Some(StandardVRM0Bone::LeftLittleProximal)
        } else if s == "RightThumbProximal"@ {
            Some(StandardVRM0Bone::RightThumbProximal)
        } else if s == "RightIndexProximal"@ {
            Some(StandardVRM0Bone::RightIndexProximal)
        } else {
            None
        }
    } else if s.len() == 22 {
        if s == "LeftMiddleIntermediate"@ {
            Some(StandardVRM0Bone::LeftMiddleIntermediate)
        } else if s == "LeftLittleIntermediate"@ {
            Some(StandardVRM0Bone::LeftLittleIntermediate)
        } else if s == "RightThumbIntermediate"@ {
            Some(StandardVRM0Bone::RightThumbIntermediate)
        } else if s == "RightIndexIntermediate"@ {
            Some(StandardVRM0Bone::RightIndexIntermediate)
        } else {
            None
        }
    } else if s.len() == 16 {
        if s == "LeftMiddleDistal"@ {
            Some(StandardVRM0Bone::LeftMiddleDistal)
        } else if s == "LeftRingProximal"@ {
            Some(StandardVRM0Bone::LeftRingProximal)
        } else if s == "LeftLittleDistal"@ {
            Some(StandardVRM0Bone::LeftLittleDistal)
        } else if s == "RightThumbDistal"@ {
            Some(StandardVRM0Bone::RightThumbDistal)
        } else if s == "RightIndexDistal"@ {
            Some(StandardVRM0Bone::RightIndexDistal)
        } else {
            None
        }
    } else if s.len() == 20 {
        if s == "LeftRingIntermediate"@ {
            Some(StandardVRM0Bone::LeftRingIntermediate)
        } else {
            None
        }
    } else if s.len() == 14 {
        if s == "LeftRingDistal"@ {
            Some(StandardVRM0Bone::LeftRingDistal)
        } else {
            None
        }
    } else if s.len() == 19 {
        if s == "RightMiddleProximal"@ {
            Some(StandardVRM0Bone::RightMiddleProximal)
        } else if s == "RightLittleProximal"@ {
            Some(StandardVRM0Bone::RightLittleProximal)
        } else {
            None
        }
    } else if s.len() == 23 {
        if s == "RightMiddleIntermediate"@ {
            Some(StandardVRM0Bone::RightMiddleIntermediate)
        } else if s == "RightLittleIntermediate"@ {
            Some(StandardVRM0Bone::RightLittleIntermediate)
        } else {
            None
        }
    } else {
        None
    }
}

impl StandardVRM0Bone {
    /// The fixed name of this value.
    pub fn as_ref(&self) -> (r: &'static str)
        ensures
            r@ == bone_name(*self),
    {
        match self {
            Self::Hips => "Hips",
            Self::LeftUpperLeg => "LeftUpperLeg",
            Self::RightUpperLeg => "RightUpperLeg",
            Self::LeftLowerLeg => "LeftLowerLeg",
            Self::RightLowerLeg => "RightLowerLeg",
            Self::LeftFoot => "LeftFoot",
            Self::RightFoot => "RightFoot",
            Self::Pelvis => "Pelvis",
            Self::Spine => "Spine",
            Self::Chest => "Chest",
            Self::UpperChest => "UpperChest",
            Self::Neck => "Neck",
            Self::Head => "Head",
            Self::LeftShoulder => "LeftShoulder",
            Self::RightShoulder => "RightShoulder",
            Self::LeftUpperArm => "LeftUpperArm",
            Self::RightUpperArm => "RightUpperArm",
            Self::LeftLowerArm => "LeftLowerArm",
            Self::RightLowerArm => "RightLowerArm",
            Self::LeftHand => "LeftHand",
            Self::RightHand => "RightHand",
            Self::LeftToes => "LeftToes",
            Self::RightToes => "RightToes",
            Self::LeftEye => "LeftEye",
            Self::RightEye => "RightEye",
            Self::Jaw => "Jaw",
            Self::LeftThumbProximal => "LeftThumbProximal",
            Self::LeftThumbIntermediate => "LeftThumbIntermediate",
            Self::LeftThumbDistal => "LeftThumbDistal",
            Self::LeftIndexProximal => "LeftIndexProximal",
            Self::LeftIndexIntermediate => "LeftIndexIntermediate",
            Self::LeftIndexDistal => "LeftIndexDistal",
            Self::LeftMiddleProximal => "LeftMiddleProximal",
            Self::LeftMiddleIntermediate => "LeftMiddleIntermediate",
            Self::LeftMiddleDistal => "LeftMiddleDistal",
            Self::LeftRingProximal => "LeftRingProximal",
            Self::LeftRingIntermediate => "LeftRingIntermediate",
            Self::LeftRingDistal => "LeftRingDistal",
            Self::LeftLittleProximal => "LeftLittleProximal",
            Self::LeftLittleIntermediate => "LeftLittleIntermediate",
            Self::LeftLittleDistal => "LeftLittleDistal",
            Self::RightThumbProximal => "RightThumbProximal",
            Self::RightThumbIntermediate => "RightThumbIntermediate",
            Self::RightThumbDistal => "RightThumbDistal",
            Self::RightIndexProximal => "RightIndexProximal",
            Self::RightIndexIntermediate => "RightIndexIntermediate",
            Self::RightIndexDistal => "RightIndexDistal",
            Self::RightMiddleProximal => "RightMiddleProximal",
            Self::RightMiddleIntermediate => "RightMiddleIntermediate",
            Self::RightMiddleDistal => "RightMiddleDistal",
            Self::RightRingProximal => "RightRingProximal",
            Self::RightRingIntermediate => "RightRingIntermediate",
            Self::RightRingDistal => "RightRingDistal",
            Self::RightLittleProximal => "RightLittleProximal",
            Self::RightLittleIntermediate => "RightLittleIntermediate",
            Self::RightLittleDistal => "RightLittleDistal",
        }
    }

    /// The fixed name of this value, as an owned string.
    pub fn to_string(&self) -> (r: String)
        ensures
            r@ == bone_name(*self),
    {
        self.as_ref().to_owned()
    }

    /// Resolves a name to its value; fails on any string outside the
    /// fixed set. Dispatches on the length first, as the specification
    /// does.
    pub fn from_str(s: &str) -> (r: Result<StandardVRM0Bone, ()>)
        ensures
            match bone_of_name(s@) {
                Some(v) => r == Ok::<StandardVRM0Bone, ()>(v),
                None => r == Err::<StandardVRM0Bone, ()>(()),
            },
    {
        let n = s.unicode_len();
        if n == 4 {
            if str_eq(s, "Hips") {
                Ok(StandardVRM0Bone::Hips)
            } else if str_eq(s, "Neck") {
                Ok(StandardVRM0Bone::Neck)
            } else if str_eq(s, "Head") {
                Ok(StandardVRM0Bone::Head)
            } else {
                Err(())
            }
        } else if n == 12 {
            if str_eq(s, "LeftUpperLeg") {
                Ok(StandardVRM0Bone::LeftUpperLeg)
            } else if str_eq(s, "LeftLowerLeg") {
                Ok(StandardVRM0Bone::LeftLowerLeg)
            } else if str_eq(s, "LeftShoulder") {
                Ok(StandardVRM0Bone::LeftShoulder)
            } else if str_eq(s, "LeftUpperArm") {
                Ok(StandardVRM0Bone::LeftUpperArm)
            } else if str_eq(s, "LeftLowerArm") {
                Ok(StandardVRM0Bone::LeftLowerArm)
            } else {
                Err(())
            }
        } else if n == 13 {
            if str_eq(s, "RightUpperLeg") {
                Ok(StandardVRM0Bone::RightUpperLeg)
            } else if str_eq(s, "RightLowerLeg") {
                Ok(StandardVRM0Bone::RightLowerLeg)
            } else if str_eq(s, "RightShoulder") {
                Ok(StandardVRM0Bone::RightShoulder)
            } else if str_eq(s, "RightUpperArm") {
                Ok(StandardVRM0Bone::RightUpperArm)
            } else if str_eq(s, "RightLowerArm") {
                Ok(StandardVRM0Bone::RightLowerArm)
            } else {
                Err(())
            }
        } else if n == 8 {
            if str_eq(s, "LeftFoot") {
                Ok(StandardVRM0Bone::LeftFoot)
            } else if str_eq(s, "LeftHand") {
                Ok(StandardVRM0Bone::LeftHand)
            } else if str_eq(s, "LeftToes") {
                Ok(StandardVRM0Bone::LeftToes)
            } else if str_eq(s, "RightEye") {
                Ok(StandardVRM0Bone::RightEye)
            } else {
                Err(())
            }
        } else if n == 9 {
            if str_eq(s, "RightFoot") {
                Ok(StandardVRM0Bone::RightFoot)
            } else if str_eq(s, "RightHand") {
                Ok(StandardVRM0Bone::RightHand)
            } else if str_eq(s, "RightToes") {
                Ok(StandardVRM0Bone::RightToes)
            } else {
                Err(())
            }
        } else if n == 6 {
            if str_eq(s, "Pelvis") {
                Ok(StandardVRM0Bone::Pelvis)
            } else {
                Err(())
            }
        } else if n == 5 {
            if str_eq(s, "Spine") {
                Ok(StandardVRM0Bone::Spine)
            } else if str_eq(s, "Chest") {
                Ok(StandardVRM0Bone::Chest)
            } else {
                Err(())
            }
        } else if n == 10 {
            if str_eq(s, "UpperChest") {
                Ok(StandardVRM0Bone::UpperChest)
            } else {
                Err(())
            }
        } else if n == 7 {
            if str_eq(s, "LeftEye") {
                Ok(StandardVRM0Bone::LeftEye)
            } else {
                Err(())
            }
        } else if n == 3 {
            if str_eq(s, "Jaw") {
                Ok(StandardVRM0Bone::Jaw)
            } else {
                Err(())
            }
        } else if n == 17 {
            if str_eq(s, "LeftThumbProximal") {
                Ok(StandardVRM0Bone::LeftThumbProximal)
            } else if str_eq(s, "LeftIndexProximal") {
                Ok(StandardVRM0Bone::LeftIndexProximal)
            } else if str_eq(s, "RightMiddleDistal") {
                Ok(StandardVRM0Bone::RightMiddleDistal)
            } else if str_eq(s, "RightRingProximal") {
                Ok(StandardVRM0Bone::RightRingProximal)
            } else if str_eq(s, "RightLittleDistal") {
                Ok(StandardVRM0Bone::RightLittleDistal)
            } else {
                Err(())
            }
        } else if n == 21 {
            if str_eq(s, "LeftThumbIntermediate") {
                Ok(StandardVRM0Bone::LeftThumbIntermediate)
            } else if str_eq(s, "LeftIndexIntermediate") {
                Ok(StandardVRM0Bone::LeftIndexIntermediate)
            } else if str_eq(s, "RightRingIntermediate") {
                Ok(StandardVRM0Bone::RightRingIntermediate)
            } else {
                Err(())
            }
        } else if n == 15 {
            if str_eq(s, "LeftThumbDistal") {
                Ok(StandardVRM0Bone::LeftThumbDistal)
            } else if str_eq(s, "LeftIndexDistal") {
                Ok(StandardVRM0Bone::LeftIndexDistal)
            } else if str_eq(s, "RightRingDistal") {
                Ok(StandardVRM0Bone::RightRingDistal)
            } else {
                Err(())
            }
        } else if n == 18 {
            if str_eq(s, "LeftMiddleProximal") {
                Ok(StandardVRM0Bone::LeftMiddleProximal)
            } else if str_eq(s, "LeftLittleProximal") {
                Ok(StandardVRM0Bone::LeftLittleProximal)
            } else if str_eq(s, "RightThumbProximal") {
                Ok(StandardVRM0Bone::RightThumbProximal)
            } else if str_eq(s, "RightIndexProximal") {
                Ok(StandardVRM0Bone::RightIndexProximal)
            } else {
                Err(())
            }
        } else if n == 22 {
            if str_eq(s, "LeftMiddleIntermediate") {
                Ok(StandardVRM0Bone::LeftMiddleIntermediate)
            } else if str_eq(s, "LeftLittleIntermediate") {
                Ok(StandardVRM0Bone::LeftLittleIntermediate)
            } else if str_eq(s, "RightThumbIntermediate") {
                Ok(StandardVRM0Bone::RightThumbIntermediate)
            } else if str_eq(s, "RightIndexIntermediate") {
                Ok(StandardVRM0Bone::RightIndexIntermediate)
            } else {
                Err(())
            }
        } else if n == 16 {
            if str_eq(s, "LeftMiddleDistal") {
                Ok(StandardVRM0Bone::LeftMiddleDistal)
            } else if str_eq(s, "LeftRingProximal") {
                Ok(StandardVRM0Bone::LeftRingProximal)
            } else if str_eq(s, "LeftLittleDistal") {
                Ok(StandardVRM0Bone::LeftLittleDistal)
            } else if str_eq(s, "RightThumbDistal") {
                Ok(StandardVRM0Bone::RightThumbDistal)
            } else if str_eq(s, "RightIndexDistal") {
                Ok(StandardVRM0Bone::RightIndexDistal)
            } else {
                Err(())
            }
        } else if n == 20 {
            if str_eq(s, "LeftRingIntermediate") {
                Ok(StandardVRM0Bone::LeftRingIntermediate)
            } else {
                Err(())
            }
        } else if n == 14 {
            if str_eq(s, "LeftRingDistal") {
                Ok(StandardVRM0Bone::LeftRingDistal)
            } else {
                Err(())
            }
        } else if n == 19 {
            if str_eq(s, "RightMiddleProximal") {
                Ok(StandardVRM0Bone::RightMiddleProximal)
            } else if str_eq(s, "RightLittleProximal") {
                Ok(StandardVRM0Bone::RightLittleProximal)
            } else {
                Err(())
            }
        } else if n == 23 {
            if str_eq(s, "RightMiddleIntermediate") {
                Ok(StandardVRM0Bone::RightMiddleIntermediate)
            } else if str_eq(s, "RightLittleIntermediate") {
                Ok(StandardVRM0Bone::RightLittleIntermediate)
            } else {
                Err(())
            }
        } else {
            Err(())
        }
    }
}

/// Every fixed name round-trips: resolving the string encoding of a
/// value gives the value back.
#[verifier::rlimit(100)]
#[verifier::spinoff_prover]
pub proof fn lemma_bone_name_roundtrip(v: StandardVRM0Bone)
    ensures
        bone_of_name(bone_name(v)) == Some(v),
{
    reveal_strlit("Hips");
    reveal_strlit("LeftUpperLeg");
    reveal_strlit("RightUpperLeg");
    reveal_strlit("LeftLowerLeg");
    reveal_strlit("RightLowerLeg");
    reveal_strlit("LeftFoot");
    reveal_strlit("RightFoot");
    reveal_strlit("Pelvis");
    reveal_strlit("Spine");
    reveal_strlit("Chest");
    reveal_strlit("UpperChest");
    reveal_strlit("Neck");
    reveal_strlit("Head");
    reveal_strlit("LeftShoulder");
    reveal_strlit("RightShoulder");
    reveal_strlit("LeftUpperArm");
    reveal_strlit("RightUpperArm");
    reveal_strlit("LeftLowerArm");
    reveal_strlit("RightLowerArm");
    reveal_strlit("LeftHand");
    reveal_strlit("RightHand");
    reveal_strlit("LeftToes");
    reveal_strlit("RightToes");
    reveal_strlit("LeftEye");
    reveal_strlit("RightEye");
    reveal_strlit("Jaw");
    reveal_strlit("LeftThumbProximal");
    reveal_strlit("LeftThumbIntermediate");
    reveal_strlit("LeftThumbDistal");
    reveal_strlit("LeftIndexProximal");
    reveal_strlit("LeftIndexIntermediate");
    reveal_strlit("LeftIndexDistal");
    reveal_strlit("LeftMiddleProximal");
    reveal_strlit("LeftMiddleIntermediate");
    reveal_strlit("LeftMiddleDistal");
    reveal_strlit("LeftRingProximal");
    reveal_strlit("LeftRingIntermediate");
    reveal_strlit("LeftRingDistal");
    reveal_strlit("LeftLittleProximal");
    reveal_strlit("LeftLittleIntermediate");
    reveal_strlit("LeftLittleDistal");
    reveal_strlit("RightThumbProximal");
    reveal_strlit("RightThumbIntermediate");
    reveal_strlit("RightThumbDistal");
    reveal_strlit("RightIndexProximal");
    reveal_strlit("RightIndexIntermediate");
    reveal_strlit("RightIndexDistal");
    reveal_strlit("RightMiddleProximal");
    reveal_strlit("RightMiddleIntermediate");
    reveal_strlit("RightMiddleDistal");
    reveal_strlit("RightRingProximal");
    reveal_strlit("RightRingIntermediate");
    reveal_strlit("RightRingDistal");
    reveal_strlit("RightLittleProximal");
    reveal_strlit("RightLittleIntermediate");
    reveal_strlit("RightLittleDistal");
    match v {
        StandardVRM0Bone::Hips => {
            assert(bone_of_name(bone_name(v)) == Some(v));
        },
        StandardVRM0Bone::LeftUpperLeg => {
            assert(bone_of_name(bone_name(v)) == Some(v));
        },
        StandardVRM0Bone::RightUpperLeg => {
            assert(bone_of_name(bone_name(v)) == Some(v));
        },
        StandardVRM0Bone::LeftLowerLeg => {
            assert("LeftUpperLeg"@[4] != "LeftLowerLeg"@[4]);
            assert(bone_of_name(bone_name(v)) == Some(v));
        },
        StandardVRM0Bone::RightLowerLeg => {
            assert("RightUpperLeg"@[5] != "RightLowerLeg"@[5]);
            assert(bone_of_name(bone_name(v)) == Some(v));
        },
        StandardVRM0Bone::LeftFoot => {
            assert(bone_of_name(bone_name(v)) == Some(v));
        },
        StandardVRM0Bone::RightFoot => {
            assert(bone_of_name(bone_name(v)) == Some(v));
        },
        StandardVRM0Bone::Pelvis => {
            assert(bone_of_name(bone_name(v)) == Some(v));
        },
        StandardVRM0Bone::Spine => {
            assert(bone_of_name(bone_name(v)) == Some(v));
        },
        StandardVRM0Bone::Chest => {
            assert("Spine"@[0] != "Chest"@[0]);
            assert(bone_of_name(bone_name(v)) == Some(v));
        },
        StandardVRM0Bone::UpperChest => {
            assert(bone_of_name(bone_name(v)) == Some(v));
        },
        StandardVRM0Bone::Neck => {
            assert("Hips"@[0] != "Neck"@[0]);
            assert(bone_of_name(bone_name(v)) == Some(v));
        },
        StandardVRM0Bone::Head => {
            assert("Hips"@[1] != "Head"@[1]);
            assert("Neck"@[0] != "Head"@[0]);
            assert(bone_of_name(bone_name(v)) == Some(v));
        },
        StandardVRM0Bone::LeftShoulder => {
            assert("LeftUpperLeg"@[4] != "LeftShoulder"@[4]);
            assert("LeftLowerLeg"@[4] != "LeftShoulder"@[4]);
            assert(bone_of_name(bone_name(v)) == Some(v));
        },
        StandardVRM0Bone::RightShoulder => {
            assert("RightUpperLeg"@[5] != "RightShoulder"@[5]);
            assert("RightLowerLeg"@[5] != "RightShoulder"@[5]);
            assert(bone_of_name(bone_name(v)) == Some(v));
        },
        StandardVRM0Bone::LeftUpperArm => {
            assert("LeftUpperLeg"@[9] != "LeftUpperArm"@[9]);
            assert("LeftLowerLeg"@[4] != "LeftUpperArm"@[4]);
            assert("LeftShoulder"@[4] != "LeftUpperArm"@[4]);
            assert(bone_of_name(bone_name(v)) == Some(v));
        },
        StandardVRM0Bone::RightUpperArm => {
            assert("RightUpperLeg"@[10] != "RightUpperArm"@[10]);
            assert("RightLowerLeg"@[5] != "RightUpperArm"@[5]);
            assert("RightShoulder"@[5] != "RightUpperArm"@[5]);
            assert(bone_of_name(bone_name(v)) == Some(v));
        },
        StandardVRM0Bone::LeftLowerArm => {
            assert("LeftUpperLeg"@[4] != "LeftLowerArm"@[4]);
            assert("LeftLowerLeg"@[9] != "LeftLowerArm"@[9]);
            assert("LeftShoulder"@[4] != "LeftLowerArm"@[4]);
            assert("LeftUpperArm"@[4] != "LeftLowerArm"@[4]);
            assert(bone_of_name(bone_name(v)) == Some(v));
        },
        StandardVRM0Bone::RightLowerArm => {
            assert("RightUpperLeg"@[5] != "RightLowerArm"@[5]);
            assert("RightLowerLeg"@[10] != "RightLowerArm"@[10]);
            assert("RightShoulder"@[5] != "RightLowerArm"@[5]);
            assert("RightUpperArm"@[5] != "RightLowerArm"@[5]);
            assert(bone_of_name(bone_name(v)) == Some(v));
        },
        StandardVRM0Bone::LeftHand => {
            assert("LeftFoot"@[4] != "LeftHand"@[4]);
            assert(bone_of_name(bone_name(v)) == Some(v));
        },
        StandardVRM0Bone::RightHand => {
            assert("RightFoot"@[5] != "RightHand"@[5]);
            assert(bone_of_name(bone_name(v)) == Some(v));
        },
        StandardVRM0Bone::LeftToes => {
            assert("LeftFoot"@[4] != "LeftToes"@[4]);
            assert("LeftHand"@[4] != "LeftToes"@[4]);
            assert(bone_of_name(bone_name(v)) == Some(v));
        },
        StandardVRM0Bone::RightToes => {
            assert("RightFoot"@[5] != "RightToes"@[5]);
            assert("RightHand"@[5] != "RightToes"@[5]);
            assert(bone_of_name(bone_name(v)) == Some(v));
        },
        StandardVRM0Bone::LeftEye => {
            assert(bone_of_name(bone_name(v)) == Some(v));
        },
        StandardVRM0Bone::RightEye => {
            assert("LeftFoot"@[0] != "RightEye"@[0]);
            assert("LeftHand"@[0] != "RightEye"@[0]);
            assert("LeftToes"@[0] != "RightEye"@[0]);
            assert(bone_of_name(bone_name(v)) == Some(v));
        },
        StandardVRM0Bone::Jaw => {
            assert(bone_of_name(bone_name(v)) == Some(v));
        },
        StandardVRM0Bone::LeftThumbProximal => {
            assert(bone_of_name(bone_name(v)) == Some(v));
        },
        StandardVRM0Bone::LeftThumbIntermediate => {
            assert(bone_of_name(bone_name(v)) == Some(v));
        },
        StandardVRM0Bone::LeftThumbDistal => {
            assert(bone_of_name(bone_name(v)) == Some(v));
        },
        StandardVRM0Bone::LeftIndexProximal => {
            assert("LeftThumbProximal"@[4] != "LeftIndexProximal"@[4]);
            assert(bone_of_name(bone_name(v)) == Some(v));
        },
        StandardVRM0Bone::LeftIndexIntermediate => {
            assert("LeftThumbIntermediate"@[4] != "LeftIndexIntermediate"@[4]);
            assert(bone_of_name(bone_name(v)) == Some(v));
        },
        StandardVRM0Bone::LeftIndexDistal => {
            assert("LeftThumbDistal"@[4] != "LeftIndexDistal"@[4]);
            assert(bone_of_name(bone_name(v)) == Some(v));
        },
        StandardVRM0Bone::LeftMiddleProximal => {
            assert(bone_of_name(bone_name(v)) == Some(v));
        },
        StandardVRM0Bone::LeftMiddleIntermediate => {
            assert(bone_of_name(bone_name(v)) == Some(v));
        },
        StandardVRM0Bone::LeftMiddleDistal => {
            assert(bone_of_name(bone_name(v)) == Some(v));
        },
        StandardVRM0Bone::LeftRingProximal => {
            assert("LeftMiddleDistal"@[4] != "LeftRingProximal"@[4]);
            assert(bone_of_name(bone_name(v)) == Some(v));
        },
        StandardVRM0Bone::LeftRingIntermediate => {
            assert(bone_of_name(bone_name(v)) == Some(v));
        },
        StandardVRM0Bone::LeftRingDistal => {
            assert(bone_of_name(bone_name(v)) == Some(v));
        },
        StandardVRM0Bone::LeftLittleProximal => {
            assert("LeftMiddleProximal"@[4] != "LeftLittleProximal"@[4]);
            assert(bone_of_name(bone_name(v)) == Some(v));
        },
        StandardVRM0Bone::LeftLittleIntermediate => {
            assert("LeftMiddleIntermediate"@[4] != "LeftLittleIntermediate"@[4]);
            assert(bone_of_name(bone_name(v)) == Some(v));
        },
        StandardVRM0Bone::LeftLittleDistal => {
            assert("LeftMiddleDistal"@[4] != "LeftLittleDistal"@[4]);
            assert("LeftRingProximal"@[4] != "LeftLittleDistal"@[4]);
            assert(bone_of_name(bone_name(v)) == Some(v));
        },
        StandardVRM0Bone::RightThumbProximal => {
            assert("LeftMiddleProximal"@[0] != "RightThumbProximal"@[0]);
            assert("LeftLittleProximal"@[0] != "RightThumbProximal"@[0]);
            assert(bone_of_name(bone_name(v)) == Some(v));
        },
        StandardVRM0Bone::RightThumbIntermediate => {
            assert("LeftMiddleIntermediate"@[0] != "RightThumbIntermediate"@[0]);
            assert("LeftLittleIntermediate"@[0] != "RightThumbIntermediate"@[0]);
            assert(bone_of_name(bone_name(v)) == Some(v));
        },
        StandardVRM0Bone::RightThumbDistal => {
            assert("LeftMiddleDistal"@[0] != "RightThumbDistal"@[0]);
            assert("LeftRingProximal"@[0] != "RightThumbDistal"@[0]);
            assert("LeftLittleDistal"@[0] != "RightThumbDistal"@[0]);
            assert(bone_of_name(bone_name(v)) == Some(v));
        },
        StandardVRM0Bone::RightIndexProximal => {
            assert("LeftMiddleProximal"@[0] != "RightIndexProximal"@[0]);
            assert("LeftLittleProximal"@[0] != "RightIndexProximal"@[0]);
            assert("RightThumbProximal"@[5] != "RightIndexProximal"@[5]);
            assert(bone_of_name(bone_name(v)) == Some(v));
        },
        StandardVRM0Bone::RightIndexIntermediate => {
            assert("LeftMiddleIntermediate"@[0] != "RightIndexIntermediate"@[0]);
            assert("LeftLittleIntermediate"@[0] != "RightIndexIntermediate"@[0]);
            assert("RightThumbIntermediate"@[5] != "RightIndexIntermediate"@[5]);
            assert(bone_of_name(bone_name(v)) == Some(v));
        },
        StandardVRM0Bone::RightIndexDistal => {
            assert("LeftMiddleDistal"@[0] != "RightIndexDistal"@[0]);
            assert("LeftRingProximal"@[0] != "RightIndexDistal"@[0]);
            assert("LeftLittleDistal"@[0] != "RightIndexDistal"@[0]);
            assert("RightThumbDistal"@[5] != "RightIndexDistal"@[5]);
            assert(bone_of_name(bone_name(v)) == Some(v));
        },
        StandardVRM0Bone::RightMiddleProximal => {
            assert(bone_of_name(bone_name(v)) == Some(v));
        },
        StandardVRM0Bone::RightMiddleIntermediate => {
            assert(bone_of_name(bone_name(v)) == Some(v));
        },
        StandardVRM0Bone::RightMiddleDistal => {
            assert("LeftThumbProximal"@[0] != "RightMiddleDistal"@[0]);
            assert("LeftIndexProximal"@[0] != "RightMiddleDistal"@[0]);
            assert(bone_of_name(bone_name(v)) == Some(v));
        },
        StandardVRM0Bone::RightRingProximal => {
            assert("LeftThumbProximal"@[0] != "RightRingProximal"@[0]);
            assert("LeftIndexProximal"@[0] != "RightRingProximal"@[0]);
            assert("RightMiddleDistal"@[5] != "RightRingProximal"@[5]);
            assert(bone_of_name(bone_name(v)) == Some(v));
        },
        StandardVRM0Bone::RightRingIntermediate => {
            assert("LeftThumbIntermediate"@[0] != "RightRingIntermediate"@[0]);
            assert("LeftIndexIntermediate"@[0] != "RightRingIntermediate"@[0]);
            assert(bone_of_name(bone_name(v)) == Some(v));
        },
        StandardVRM0Bone::RightRingDistal => {
            assert("LeftThumbDistal"@[0] != "RightRingDistal"@[0]);
            assert("LeftIndexDistal"@[0] != "RightRingDistal"@[0]);
            assert(bone_of_name(bone_name(v)) == Some(v));
        },
        StandardVRM0Bone::RightLittleProximal => {
            assert("RightMiddleProximal"@[5] != "RightLittleProximal"@[5]);
            assert(bone_of_name(bone_name(v)) == Some(v));
        },
        StandardVRM0Bone::RightLittleIntermediate => {
            assert("RightMiddleIntermediate"@[5] != "RightLittleIntermediate"@[5]);
            assert(bone_of_name(bone_name(v)) == Some(v));
        },
        StandardVRM0Bone::RightLittleDistal => {
            assert("LeftThumbProximal"@[0] != "RightLittleDistal"@[0]);
            assert("LeftIndexProximal"@[0] != "RightLittleDistal"@[0]);
            assert("RightMiddleDistal"@[5] != "RightLittleDistal"@[5]);
            assert("RightRingProximal"@[5] != "RightLittleDistal"@[5]);
            assert(bone_of_name(bone_name(v)) == Some(v));
        },
    }
}

/// Resolution is inverse to naming: a string that resolves is exactly
/// the name of what it resolves to.
#[verifier::rlimit(60)]
#[verifier::spinoff_prover]
pub proof fn lemma_bone_of_name_inverse(s: Seq<char>, v: StandardVRM0Bone)
    requires
        bone_of_name(s) == Some(v),
    ensures
        bone_name(v) == s,
{
}

/// The kind of device in a device transform: headset, controller or tracker.
#[derive(Debug, Clone, Copy, PartialEq, Eq, Structural, Hash)]
pub enum DeviceType {
    HMD,
    Controller,
    Tracker,
}

/// The fixed string encoding of a `DeviceType`.
pub open spec fn device_name(v: DeviceType) -> Seq<char> {
    match v {
        DeviceType::HMD => "Hmd"@,
        DeviceType::Controller => "Con"@,
        DeviceType::Tracker => "Tra"@,
    }
}

/// The value encoded by a string, if the string is one of the fixed
/// names; the names are grouped by length.
pub open spec fn device_of_name(s: Seq<char>) -> Option<DeviceType> {
    if s.len() == 3 {
        if s == "Hmd"@ {
            Some(DeviceType::HMD)
        } else if s == "Con"@ {
            Some(DeviceType::Controller)
        } else if s == "Tra"@ {
            Some(DeviceType::Tracker)
        } else {
            None
        }
    } else {
        None
    }
}

impl DeviceType {
    /// The fixed name of this value.
    pub fn as_ref(&self) -> (r: &'static str)
        ensures
            r@ == device_name(*self),
    {
        match self {
            Self::HMD => "Hmd",
            Self::Controller => "Con",
            Self::Tracker => "Tra",
        }
    }

    /// The fixed name of this value, as an owned string.
    pub fn to_string(&self) -> (r: String)
        ensures
            r@ == device_name(*self),
    {
        self.as_ref().to_owned()
    }

    /// Resolves a name to its value; fails on any string outside the
    /// fixed set. Dispatches on the length first, as the specification
    /// does.
    pub fn from_str(s: &str) -> (r: Result<DeviceType, ()>)
        ensures
            match device_of_name(s@) {
                Some(v) => r == Ok::<DeviceType, ()>(v),
                None => r == Err::<DeviceType, ()>(()),
            },
    {
        let n = s.unicode_len();
        if n == 3 {
            if str_eq(s, "Hmd") {
                Ok(DeviceType::HMD)
            } else if str_eq(s, "Con") {
                Ok(DeviceType::Controller)
            } else if str_eq(s, "Tra") {
                Ok(DeviceType::Tracker)
            } else {
                Err(())
            }
        } else {
            Err(())
        }
    }
}

/// Every fixed name round-trips: resolving the string encoding of a
/// value gives the value back.
#[verifier::rlimit(100)]
#[verifier::spinoff_prover]
pub proof fn lemma_device_name_roundtrip(v: DeviceType)
    ensures
        device_of_name(device_name(v)) == Some(v),
{
    reveal_strlit("Hmd");
    reveal_strlit("Con");
    reveal_strlit("Tra");
    match v {
        DeviceType::HMD => {
            assert(device_of_name(device_name(v)) == Some(v));
        },
        DeviceType::Controller => {
            assert("Hmd"@[0] != "Con"@[0]);
            assert(device_of_name(device_name(v)) == Some(v));
        },
        DeviceType::Tracker => {
            assert("Hmd"@[0] != "Tra"@[0]);
            assert("Con"@[0] != "Tra"@[0]);
            assert(device_of_name(device_name(v)) == Some(v));
        },
    }
}

/// Resolution is inverse to naming: a string that resolves is exactly
/// the name of what it resolves to.
#[verifier::rlimit(60)]
#[verifier::spinoff_prover]
pub proof fn lemma_device_of_name_inverse(s: Seq<char>, v: DeviceType)
    requires
        device_of_name(s) == Some(v),
    ensures
        device_name(v) == s,
{
}

/// Standard blend shapes, in VRM 0.x format, including the irregular pair
/// `Blink_L` and `Blink_R`.
#[derive(Debug, Clone, Copy, PartialEq, Eq, Structural, Hash)]
pub enum StandardVRMBlendShape {
    Neutral,
    A,
    I,
    U,
    E,
    O,
    Blink,
    Joy,
    Angry,
    Sorrow,
    Fun,
    LookUp,
    LookDown,
    LookLeft,
    LookRight,
    BlinkL,
    BlinkR,
}

/// The fixed string encoding of a `StandardVRMBlendShape`.
pub open spec fn blend_shape_name(v: StandardVRMBlendShape) -> Seq<char> {
    match v {
        StandardVRMBlendShape::Neutral => "Neutral"@,
        StandardVRMBlendShape::A => "A"@,
        StandardVRMBlendShape::I => "I"@,
        StandardVRMBlendShape::U => "U"@,
        StandardVRMBlendShape::E => "E"@,
        StandardVRMBlendShape::O => "O"@,
        StandardVRMBlendShape::Blink => "Blink"@,
        StandardVRMBlendShape::Joy => "Joy"@,
        StandardVRMBlendShape::Angry => "Angry"@,
        StandardVRMBlendShape::Sorrow => "Sorrow"@,
        StandardVRMBlendShape::Fun => "Fun"@,
        StandardVRMBlendShape::LookUp => "LookUp"@,
        StandardVRMBlendShape::LookDown => "LookDown"@,
        StandardVRMBlendShape::LookLeft => "LookLeft"@,
        StandardVRMBlendShape::LookRight => "LookRight"@,
        StandardVRMBlendShape::BlinkL => "Blink_L"@,
        StandardVRMBlendShape::BlinkR => "Blink_R"@,
    }
}

/// The value encoded by a string, if the string is one of the fixed
/// names; the names are grouped by length.
pub open spec fn blend_shape_of_name(s: Seq<char>) -> Option<StandardVRMBlendShape> {
    if s.len() == 7 {
        if s == "Neutral"@ {
            Some(StandardVRMBlendShape::Neutral)
        } else if s == "Blink_L"@ {
            Some(StandardVRMBlendShape::BlinkL)
        } else if s == "Blink_R"@ {
            Some(StandardVRMBlendShape::BlinkR)
        } else {
            None
        }
    } else if s.len() == 1 {
        if s == "A"@ {
            Some(StandardVRMBlendShape::A)
        } else if s == "I"@ {
            Some(StandardVRMBlendShape::I)
        } else if s == "U"@ {
            Some(StandardVRMBlendShape::U)
        } else if s == "E"@ {
            Some(StandardVRMBlendShape::E)
        } else if s == "O"@ {
            Some(StandardVRMBlendShape::O)
        } else {
            None
        }
    } else if s.len() == 5 {
        if s == "Blink"@ {
            Some(StandardVRMBlendShape::Blink)
        } else if s == "Angry"@ {
            Some(StandardVRMBlendShape::Angry)
        } else {
            None
        }
    } else if s.len() == 3 {
        if s == "Joy"@ {
            Some(StandardVRMBlendShape::Joy)
        } else if s == "Fun"@ {
            Some(StandardVRMBlendShape::Fun)
        } else {
            None
        }
    } else if s.len() == 6 {
        if s == "Sorrow"@ {
            Some(StandardVRMBlendShape::Sorrow)
        } else if s == "LookUp"@ {
            Some(StandardVRMBlendShape::LookUp)
        } else {
            None
        }
    } else if s.len() == 8 {
        if s == "LookDown"@ {
            Some(StandardVRMBlendShape::LookDown)
        } else if s == "LookLeft"@ {
            Some(StandardVRMBlendShape::LookLeft)
        } else {
            None
        }
    } else if s.len() == 9 {
        if s == "LookRight"@ {
            Some(StandardVRMBlendShape::LookRight)
        } else {
            None
        }
    } else {
        None
    }
}

impl StandardVRMBlendShape {
    /// The fixed name of this value.
    pub fn as_ref(&self) -> (r: &'static str)
        ensures
            r@ == blend_shape_name(*self),
    {
        match self {
            Self::Neutral => "Neutral",
            Self::A => "A",
            Self::I => "I",
            Self::U => "U",
            Self::E => "E",
            Self::O => "O",
            Self::Blink => "Blink",
            Self::Joy => "Joy",
            Self::Angry => "Angry",
            Self::Sorrow => "Sorrow",
            Self::Fun => "Fun",
            Self::LookUp => "LookUp",
            Self::LookDown => "LookDown",
            Self::LookLeft => "LookLeft",
            Self::LookRight => "LookRight",
            Self::BlinkL => "Blink_L",
            Self::BlinkR => "Blink_R",
        }
    }

    /// The fixed name of this value, as an owned string.
    pub fn to_string(&self) -> (r: String)
        ensures
            r@ == blend_shape_name(*self),
    {
        self.as_ref().to_owned()
    }

    /// Resolves a name to its value; fails on any string outside the
    /// fixed set. Dispatches on the length first, as the specification
    /// does.
    pub fn from_str(s: &str) -> (r: Result<StandardVRMBlendShape, ()>)
        ensures
            match blend_shape_of_name(s@) {
                Some(v) => r == Ok::<StandardVRMBlendShape, ()>(v),
                None => r == Err::<StandardVRMBlendShape, ()>(()),
            },
    {
        let n = s.unicode_len();
        if n == 7 {
            if str_eq(s, "Neutral") {
                Ok(StandardVRMBlendShape::Neutral)
            } else if str_eq(s, "Blink_L") {
                Ok(StandardVRMBlendShape::BlinkL)
            } else if str_eq(s, "Blink_R") {
                Ok(StandardVRMBlendShape::BlinkR)
            } else {
                Err(())
            }
        } else if n == 1 {
            if str_eq(s, "A") {
                Ok(StandardVRMBlendShape::A)
            } else if str_eq(s, "I") {
                Ok(StandardVRMBlendShape::I)
            } else if str_eq(s, "U") {
                Ok(StandardVRMBlendShape::U)
            } else if str_eq(s, "E") {
                Ok(StandardVRMBlendShape::E)
            } else if str_eq(s, "O") {
                Ok(StandardVRMBlendShape::O)
            } else {
                Err(())
            }
        } else if n == 5 {
            if str_eq(s, "Blink") {
                Ok(StandardVRMBlendShape::Blink)
            } else if str_eq(s, "Angry") {
                Ok(StandardVRMBlendShape::Angry)
            } else {
                Err(())
            }
        } else if n == 3 {
            if str_eq(s, "Joy") {
                Ok(StandardVRMBlendShape::Joy)
            } else if str_eq(s, "Fun") {
                Ok(StandardVRMBlendShape::Fun)
            } else {
                Err(())
            }
        } else if n == 6 {
            if str_eq(s, "Sorrow") {
                Ok(StandardVRMBlendShape::Sorrow)
            } else if str_eq(s, "LookUp") {
                Ok(StandardVRMBlendShape::LookUp)
            } else {
                Err(())
            }
        } else if n == 8 {
            if str_eq(s, "LookDown") {
                Ok(StandardVRMBlendShape::LookDown)
            } else if str_eq(s, "LookLeft") {
                Ok(StandardVRMBlendShape::LookLeft)
            } else {
                Err(())
            }
        } else if n == 9 {
            if str_eq(s, "LookRight") {
                Ok(StandardVRMBlendShape::LookRight)
            } else {
                Err(())
            }
        } else {
            Err(())
        }
    }
}

/// Every fixed name round-trips: resolving the string encoding of a
/// value gives the value back.
#[verifier::rlimit(100)]
#[verifier::spinoff_prover]
pub proof fn lemma_blend_shape_name_roundtrip(v: StandardVRMBlendShape)
    ensures
        blend_shape_of_name(blend_shape_name(v)) == Some(v),
{
    reveal_strlit("Neutral");
    reveal_strlit("A");
    reveal_strlit("I");
    reveal_strlit("U");
    reveal_strlit("E");
    reveal_strlit("O");
    reveal_strlit("Blink");
    reveal_strlit("Joy");
    reveal_strlit("Angry");
    reveal_strlit("Sorrow");
    reveal_strlit("Fun");
    reveal_strlit("LookUp");
    reveal_strlit("LookDown");
    reveal_strlit("LookLeft");
    reveal_strlit("LookRight");
    reveal_strlit("Blink_L");
    reveal_strlit("Blink_R");
    match v {
        StandardVRMBlendShape::Neutral => {
            assert(blend_shape_of_name(blend_shape_name(v)) == Some(v));
        },
        StandardVRMBlendShape::A => {
            assert(blend_shape_of_name(blend_shape_name(v)) == Some(v));
        },
        StandardVRMBlendShape::I => {
            assert("A"@[0] != "I"@[0]);
            assert(blend_shape_of_name(blend_shape_name(v)) == Some(v));
        },
        StandardVRMBlendShape::U => {
            assert("A"@[0] != "U"@[0]);
            assert("I"@[0] != "U"@[0]);
            assert(blend_shape_of_name(blend_shape_name(v)) == Some(v));
        },
        StandardVRMBlendShape::E => {
            assert("A"@[0] != "E"@[0]);
            assert("I"@[0] != "E"@[0]);
            assert("U"@[0] != "E"@[0]);
            assert(blend_shape_of_name(blend_shape_name(v)) == Some(v));
        },
        StandardVRMBlendShape::O => {
            assert("A"@[0] != "O"@[0]);
            assert("I"@[0] != "O"@[0]);
            assert("U"@[0] != "O"@[0]);
            assert("E"@[0] != "O"@[0]);
            assert(blend_shape_of_name(blend_shape_name(v)) == Some(v));
        },
        StandardVRMBlendShape::Blink => {
            assert(blend_shape_of_name(blend_shape_name(v)) == Some(v));
        },
        StandardVRMBlendShape::Joy => {
            assert(blend_shape_of_name(blend_shape_name(v)) == Some(v));
        },
        StandardVRMBlendShape::Angry => {
            assert("Blink"@[0] != "Angry"@[0]);
            assert(blend_shape_of_name(blend_shape_name(v)) == Some(v));
        },
        StandardVRMBlendShape::Sorrow => {
            assert(blend_shape_of_name(blend_shape_name(v)) == Some(v));
        },
        StandardVRMBlendShape::Fun => {
            assert("Joy"@[0] != "Fun"@[0]);
            assert(blend_shape_of_name(blend_shape_name(v)) == Some(v));
        },
        StandardVRMBlendShape::LookUp => {
            assert("Sorrow"@[0] != "LookUp"@[0]);
            assert(blend_shape_of_name(blend_shape_name(v)) == Some(v));
        },
        StandardVRMBlendShape::LookDown => {
            assert(blend_shape_of_name(blend_shape_name(v)) == Some(v));
        },
        StandardVRMBlendShape::LookLeft => {
            assert("LookDown"@[4] != "LookLeft"@[4]);
            assert(blend_shape_of_name(blend_shape_name(v)) == Some(v));
        },
        StandardVRMBlendShape::LookRight => {
            assert(blend_shape_of_name(blend_shape_name(v)) == Some(v));
        },
        StandardVRMBlendShape::BlinkL => {
            assert("Neutral"@[0] != "Blink_L"@[0]);
            assert(blend_shape_of_name(blend_shape_name(v)) == Some(v));
        },
        StandardVRMBlendShape::BlinkR => {
            assert("Neutral"@[0] != "Blink_R"@[0]);
            assert("Blink_L"@[6] != "Blink_R"@[6]);
            assert(blend_shape_of_name(blend_shape_name(v)) == Some(v));
        },
    }
}

/// Resolution is inverse to naming: a string that resolves is exactly
/// the name of what it resolves to.
#[verifier::rlimit(60)]
#[verifier::spinoff_prover]
pub proof fn lemma_blend_shape_of_name_inverse(s: Seq<char>, v: StandardVRMBlendShape)
    requires
        blend_shape_of_name(s) == Some(v),
    ensures
        blend_shape_name(v) == s,
{
}

/// Loading state of the virtual avatar on the sender's side.
#[derive(Debug, Clone, Copy, PartialEq, Eq, Structural, Hash)]
pub enum ModelState {
    /// The model is not yet loaded or is currently loading.
    NotLoaded,
    /// The model is loaded and tracking can commence.
    Loaded,
}

/// The fixed integer encoding of a `ModelState`.
pub open spec fn model_state_int(v: ModelState) -> i32 {
    match v {
        ModelState::NotLoaded => 0,
        ModelState::Loaded => 1,
    }
}

/// The value encoded by an integer, if the integer is in range.
pub open spec fn model_state_of_int(x: int) -> Option<ModelState> {
    if x == 0 {
        Some(ModelState::NotLoaded)
    } else if x == 1 {
        Some(ModelState::Loaded)
    } else {
        None
    }
}

impl ModelState {
    /// The fixed integer encoding of this value.
    pub fn as_i32(&self) -> (r: i32)
        ensures
            r == model_state_int(*self),
    {
        match self {
            Self::NotLoaded => 0,
            Self::Loaded => 1,
        }
    }

    /// Decodes an integer; fails, carrying the integer, exactly when it
    /// is out of range.
    pub fn try_from(value: i32) -> (r: Result<ModelState, i32>)
        ensures
            match model_state_of_int(value as int) {
                Some(v) => r == Ok::<ModelState, i32>(v),
                None => r == Err::<ModelState, i32>(value),
            },
    {
        match value {
            0 => Ok(ModelState::NotLoaded),
            1 => Ok(ModelState::Loaded),
            x => Err(x),
        }
    }
}

/// Every in-range integer round-trips through `ModelState`.
pub proof fn model_state_int_roundtrip(v: ModelState)
    ensures
        model_state_of_int(model_state_int(v) as int) == Some(v),
{
}

/// Progress of tracking calibration on the sender's side.
#[derive(Debug, Clone, Copy, PartialEq, Eq, Structural, Hash)]
pub enum CalibrationState {
    /// The sender has not yet calibrated tracking.
    Uncalibrated,
    /// The sender is waiting for calibration to start.
    WaitingForCalibration,
    /// The sender is currently calibrating tracking.
    Calibrating,
    /// The calibration is complete and tracking can commence.
    Calibrated,
}

/// The fixed integer encoding of a `CalibrationState`.
pub open spec fn calibration_state_int(v: CalibrationState) -> i32 {
    match v {
        CalibrationState::Uncalibrated => 0,
        CalibrationState::WaitingForCalibration => 1,
        CalibrationState::Calibrating => 2,
        CalibrationState::Calibrated => 3,
    }
}

/// The value encoded by an integer, if the integer is in range.
pub open spec fn calibration_state_of_int(x: int) -> Option<CalibrationState> {
    if x == 0 {
        Some(CalibrationState::Uncalibrated)
    } else if x == 1 {
        Some(CalibrationState::WaitingForCalibration)
    } else if x == 2 {
        Some(CalibrationState::Calibrating)
    } else if x == 3 {
        Some(CalibrationState::Calibrated)
    } else {
        None
    }
}

impl CalibrationState {
    /// The fixed integer encoding of this value.
    pub fn as_i32(&self) -> (r: i32)
        ensures
            r == calibration_state_int(*self),
    {
        match self {
            Self::Uncalibrated => 0,
            Self::WaitingForCalibration => 1,
            Self::Calibrating => 2,
            Self::Calibrated => 3,
        }
    }

    /// Decodes an integer; fails, carrying the integer, exactly when it
    /// is out of range.
    pub fn try_from(value: i32) -> (r: Result<CalibrationState, i32>)
        ensures
            match calibration_state_of_int(value as int) {
                Some(v) => r == Ok::<CalibrationState, i32>(v),
                None => r == Err::<CalibrationState, i32>(value),
            },
    {
        match value {
            0 => Ok(CalibrationState::Uncalibrated),
            1 => Ok(CalibrationState::WaitingForCalibration),
            2 => Ok(CalibrationState::Calibrating),
            3 => Ok(CalibrationState::Calibrated),
            x => Err(x),
        }
    }
}

/// Every in-range integer round-trips through `CalibrationState`.
pub proof fn calibration_state_int_roundtrip(v: CalibrationState)
    ensures
        calibration_state_of_int(calibration_state_int(v) as int) == Some(v),
{
}

/// The calibration mode in use on the sender's side.
#[derive(Debug, Clone, Copy, PartialEq, Eq, Structural, Hash)]
pub enum CalibrationMode {
    Normal,
    MixedRealityHand,
    MixedRealityFloor,
}

/// The fixed integer encoding of a `CalibrationMode`.
pub open spec fn calibration_mode_int(v: CalibrationMode) -> i32 {
    match v {
        CalibrationMode::Normal => 0,
        CalibrationMode::MixedRealityHand => 1,
        CalibrationMode::MixedRealityFloor => 2,
    }
}

/// The value encoded by an integer, if the integer is in range.
pub open spec fn calibration_mode_of_int(x: int) -> Option<CalibrationMode> {
    if x == 0 {
        Some(CalibrationMode::Normal)
    } else if x == 1 {
        Some(CalibrationMode::MixedRealityHand)
    } else if x == 2 {
        Some(CalibrationMode::MixedRealityFloor)
    } else {
        None
    }
}

impl CalibrationMode {
    /// The fixed integer encoding of this value.
    pub fn as_i32(&self) -> (r: i32)
        ensures
            r == calibration_mode_int(*self),
    {
        match self {
            Self::Normal => 0,
            Self::MixedRealityHand => 1,
            Self::MixedRealityFloor => 2,
        }
    }

    /// Decodes an integer; fails, carrying the integer, exactly when it
    /// is out of range.
    pub fn try_from(value: i32) -> (r: Result<CalibrationMode, i32>)
        ensures
            match calibration_mode_of_int(value as int) {
                Some(v) => r == Ok::<CalibrationMode, i32>(v),
                None => r == Err::<CalibrationMode, i32>(value),
            },
    {
        match value {
            0 => Ok(CalibrationMode::Normal),
            1 => Ok(CalibrationMode::MixedRealityHand),
            2 => Ok(CalibrationMode::MixedRealityFloor),
            x => Err(x),
        }
    }
}

/// Every in-range integer round-trips through `CalibrationMode`.
pub proof fn calibration_mode_int_roundtrip(v: CalibrationMode)
    ensures
        calibration_mode_of_int(calibration_mode_int(v) as int) == Some(v),
{
}

/// Quality of tracking.
#[derive(Debug, Clone, Copy, PartialEq, Eq, Structural, Hash)]
pub enum TrackingState {
    /// Tracking is in poor condition.
    Poor,
    /// Tracking is in good condition.
    Good,
}

/// The fixed integer encoding of a `TrackingState`.
pub open spec fn tracking_state_int(v: TrackingState) -> i32 {
    match v {
        TrackingState::Poor => 0,
        TrackingState::Good => 1,
    }
}

/// The value encoded by an integer, if the integer is in range.
pub open spec fn tracking_state_of_int(x: int) -> Option<TrackingState> {
    if x == 0 {
        Some(TrackingState::Poor)
    } else if x == 1 {
        Some(TrackingState::Good)
    } else {
        None
    }
}

impl TrackingState {
    /// The fixed integer encoding of this value.
    pub fn as_i32(&self) -> (r: i32)
        ensures
            r == tracking_state_int(*self),
    {
        match self {
            Self::Poor => 0,
            Self::Good => 1,
        }
    }

    /// Decodes an integer; fails, carrying the integer, exactly when it
    /// is out of range.
    pub fn try_from(value: i32) -> (r: Result<TrackingState, i32>)
        ensures
            match tracking_state_of_int(value as int) {
                Some(v) => r == Ok::<TrackingState, i32>(v),
                None => r == Err::<TrackingState, i32>(value),
            },
    {
        match value {
            0 => Ok(TrackingState::Poor),
            1 => Ok(TrackingState::Good),
            x => Err(x),
        }
    }
}

/// Every in-range integer round-trips through `TrackingState`.
pub proof fn tracking_state_int_roundtrip(v: TrackingState)
    ensures
        tracking_state_of_int(tracking_state_int(v) as int) == Some(v),
{
}

} // verus!

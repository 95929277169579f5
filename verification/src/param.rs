//! Parameter model: the parameter kinds carried in Object POD headers and
//! the per-object-kind key enumerations, each with its stable numeric codes.

use vstd::prelude::*;

use crate::pod::types::ObjectType;

pub mod buffers;
pub mod format;
pub mod props;

verus! {

/// An object key enumeration tied to one object kind.
pub trait ParamObject {
    /// The object kind whose properties this key enumeration names.
    fn object_type() -> ObjectType;
}

/// The parameter kind: the second header word of an Object POD.
#[derive(Clone, Copy, Debug, PartialEq, Eq, Structural)]
pub enum ParamType {
    Invalid,
    PropInfo,
    Props,
    EnumFormat,
    Format,
    Buffers,
    Meta,
    IO,
    EnumProfile,
    Profile,
    EnumPortConfig,
    PortConfig,
    EnumRoute,
    Route,
    Control,
    Latency,
    ProcessLatency,
    Tag,
}

/// The stable numeric code of each `ParamType` value.
pub open spec fn paramtype_code(t: ParamType) -> u32 {
    match t {
        ParamType::Invalid => 0,
        ParamType::PropInfo => 1,
        ParamType::Props => 2,
        ParamType::EnumFormat => 3,
        ParamType::Format => 4,
        ParamType::Buffers => 5,
        ParamType::Meta => 6,
        ParamType::IO => 7,
        ParamType::EnumProfile => 8,
        ParamType::Profile => 9,
        ParamType::EnumPortConfig => 10,
        ParamType::PortConfig => 11,
        ParamType::EnumRoute => 12,
        ParamType::Route => 13,
        ParamType::Control => 14,
        ParamType::Latency => 15,
        ParamType::ProcessLatency => 16,
        ParamType::Tag => 17,
    }
}

/// The `ParamType` value that a numeric code stands for, if any.
pub open spec fn spec_paramtype_from(v: u32) -> Option<ParamType> {
    if v == 0 {
        Option::Some(ParamType::Invalid)
    } else if v == 1 {
        Option::Some(ParamType::PropInfo)
    } else if v == 2 {
        Option::Some(ParamType::Props)
    } else if v == 3 {
        Option::Some(ParamType::EnumFormat)
    } else if v == 4 {
        Option::Some(ParamType::Format)
    } else if v == 5 {
        Option::Some(ParamType::Buffers)
    } else if v == 6 {
        Option::Some(ParamType::Meta)
    } else if v == 7 {
        Option::Some(ParamType::IO)
    } else if v == 8 {
        Option::Some(ParamType::EnumProfile)
    } else if v == 9 {
        Option::Some(ParamType::Profile)
    } else if v == 10 {
        Option::Some(ParamType::EnumPortConfig)
    } else if v == 11 {
        Option::Some(ParamType::PortConfig)
    } else if v == 12 {
        Option::Some(ParamType::EnumRoute)
    } else if v == 13 {
        Option::Some(ParamType::Route)
    } else if v == 14 {
        Option::Some(ParamType::Control)
    } else if v == 15 {
        Option::Some(ParamType::Latency)
    } else if v == 16 {
        Option::Some(ParamType::ProcessLatency)
    } else if v == 17 {
        Option::Some(ParamType::Tag)
    } else {
        Option::None
    }
}

impl ParamType {
    /// Numeric code of this value.
    pub fn to_u32(self) -> (r: u32)
        ensures
            r == paramtype_code(self),
    {
        match self {
            ParamType::Invalid => 0,
            ParamType::PropInfo => 1,
            ParamType::Props => 2,
            ParamType::EnumFormat => 3,
            ParamType::Format => 4,
            ParamType::Buffers => 5,
            ParamType::Meta => 6,
            ParamType::IO => 7,
            ParamType::EnumProfile => 8,
            ParamType::Profile => 9,
            ParamType::EnumPortConfig => 10,
            ParamType::PortConfig => 11,
            ParamType::EnumRoute => 12,
            ParamType::Route => 13,
            ParamType::Control => 14,
            ParamType::Latency => 15,
            ParamType::ProcessLatency => 16,
            ParamType::Tag => 17,
        }
    }

    /// Value for a numeric code; unknown codes are rejected.
    pub fn from_u32(v: u32) -> (r: Option<ParamType>)
        ensures
            r == spec_paramtype_from(v),
    {
        if v == 0 {
            Option::Some(ParamType::Invalid)
        } else if v == 1 {
            Option::Some(ParamType::PropInfo)
        } else if v == 2 {
            Option::Some(ParamType::Props)
        } else if v == 3 {
            Option::Some(ParamType::EnumFormat)
        } else if v == 4 {
            Option::Some(ParamType::Format)
        } else if v == 5 {
            Option::Some(ParamType::Buffers)
        } else if v == 6 {
            Option::Some(ParamType::Meta)
        } else if v == 7 {
            Option::Some(ParamType::IO)
        } else if v == 8 {
            Option::Some(ParamType::EnumProfile)
        } else if v == 9 {
            Option::Some(ParamType::Profile)
        } else if v == 10 {
            Option::Some(ParamType::EnumPortConfig)
        } else if v == 11 {
            Option::Some(ParamType::PortConfig)
        } else if v == 12 {
            Option::Some(ParamType::EnumRoute)
        } else if v == 13 {
            Option::Some(ParamType::Route)
        } else if v == 14 {
            Option::Some(ParamType::Control)
        } else if v == 15 {
            Option::Some(ParamType::Latency)
        } else if v == 16 {
            Option::Some(ParamType::ProcessLatency)
        } else if v == 17 {
            Option::Some(ParamType::Tag)
        } else {
            Option::None
        }
    }
}

/// Round trip of the `ParamType` codes.
pub proof fn lemma_paramtype_code_round_trip(t: ParamType)
    ensures
        spec_paramtype_from(paramtype_code(t)) == Option::Some(t),
{
}

} // verus!

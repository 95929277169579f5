//! Keys of buffer, metadata and I/O parameter objects.

use vstd::prelude::*;

use crate::param::ParamObject;
use crate::pod::types::ObjectType;

verus! {

/// Keys of a ParamBuffers object.
#[derive(Clone, Copy, Debug, PartialEq, Eq, Structural)]
pub enum Buffers {
    Start,
    Buffers,
    Blocks,
    Size,
    Stride,
    Align,
    DataType,
    MetaType,
}

/// The stable numeric code of each `Buffers` value.
pub open spec fn buffers_code(t: Buffers) -> u32 {
    match t {
        Buffers::Start => 0,
        Buffers::Buffers => 1,
        Buffers::Blocks => 2,
        Buffers::Size => 3,
        Buffers::Stride => 4,
        Buffers::Align => 5,
        Buffers::DataType => 6,
        Buffers::MetaType => 7,
    }
}

/// The `Buffers` value that a numeric code stands for, if any.
pub open spec fn spec_buffers_from(v: u32) -> Option<Buffers> {
    if v == 0 {
        Option::Some(Buffers::Start)
    } else if v == 1 {
        Option::Some(Buffers::Buffers)
    } else if v == 2 {
        Option::Some(Buffers::Blocks)
    } else if v == 3 {
        Option::Some(Buffers::Size)
    } else if v == 4 {
        Option::Some(Buffers::Stride)
    } else if v == 5 {
        Option::Some(Buffers::Align)
    } else if v == 6 {
        Option::Some(Buffers::DataType)
    } else if v == 7 {
        Option::Some(Buffers::MetaType)
    } else {
        Option::None
    }
}

impl Buffers {
    /// Numeric code of this value.
    pub fn to_u32(self) -> (r: u32)
        ensures
            r == buffers_code(self),
    {
        match self {
            Buffers::Start => 0,
            Buffers::Buffers => 1,
            Buffers::Blocks => 2,
            Buffers::Size => 3,
            Buffers::Stride => 4,
            Buffers::Align => 5,
            Buffers::DataType => 6,
            Buffers::MetaType => 7,
        }
    }

    /// Value for a numeric code; unknown codes are rejected.
    pub fn from_u32(v: u32) -> (r: Option<Buffers>)
        ensures
            r == spec_buffers_from(v),
    {
        if v == 0 {
            Option::Some(Buffers::Start)
        } else if v == 1 {
            Option::Some(Buffers::Buffers)
        } else if v == 2 {
            Option::Some(Buffers::Blocks)
        } else if v == 3 {
            Option::Some(Buffers::Size)
        } else if v == 4 {
            Option::Some(Buffers::Stride)
        } else if v == 5 {
            Option::Some(Buffers::Align)
        } else if v == 6 {
            Option::Some(Buffers::DataType)
        } else if v == 7 {
            Option::Some(Buffers::MetaType)
        } else {
            Option::None
        }
    }
}

/// Round trip of the `Buffers` codes.
pub proof fn lemma_buffers_code_round_trip(t: Buffers)
    ensures
        spec_buffers_from(buffers_code(t)) == Option::Some(t),
{
}
/// Keys of a ParamMeta object.
#[derive(Clone, Copy, Debug, PartialEq, Eq, Structural)]
pub enum Meta {
    Start,
    Type,
    Size,
}

/// The stable numeric code of each `Meta` value.
pub open spec fn meta_code(t: Meta) -> u32 {
    match t {
        Meta::Start => 0,
        Meta::Type => 1,
        Meta::Size => 2,
    }
}

/// The `Meta` value that a numeric code stands for, if any.
pub open spec fn spec_meta_from(v: u32) -> Option<Meta> {
    if v == 0 {
        Option::Some(Meta::Start)
    } else if v == 1 {
        Option::Some(Meta::Type)
    } else if v == 2 {
        Option::Some(Meta::Size)
    } else {
        Option::None
    }
}

impl Meta {
    /// Numeric code of this value.
    pub fn to_u32(self) -> (r: u32)
        ensures
            r == meta_code(self),
    {
        match self {
            Meta::Start => 0,
            Meta::Type => 1,
            Meta::Size => 2,
        }
    }

    /// Value for a numeric code; unknown codes are rejected.
    pub fn from_u32(v: u32) -> (r: Option<Meta>)
        ensures
            r == spec_meta_from(v),
    {
        if v == 0 {
            Option::Some(Meta::Start)
        } else if v == 1 {
            Option::Some(Meta::Type)
        } else if v == 2 {
            Option::Some(Meta::Size)
        } else {
            Option::None
        }
    }
}

/// Round trip of the `Meta` codes.
pub proof fn lemma_meta_code_round_trip(t: Meta)
    ensures
        spec_meta_from(meta_code(t)) == Option::Some(t),
{
}
/// Keys of a ParamIO object.
#[derive(Clone, Copy, Debug, PartialEq, Eq, Structural)]
pub enum Io {
    Start,
    Id,
    Size,
}

/// The stable numeric code of each `Io` value.
pub open spec fn io_code(t: Io) -> u32 {
    match t {
        Io::Start => 0,
        Io::Id => 1,
        Io::Size => 2,
    }
}

/// The `Io` value that a numeric code stands for, if any.
pub open spec fn spec_io_from(v: u32) -> Option<Io> {
    if v == 0 {
        Option::Some(Io::Start)
    } else if v == 1 {
        Option::Some(Io::Id)
    } else if v == 2 {
        Option::Some(Io::Size)
    } else {
        Option::None
    }
}

impl Io {
    /// Numeric code of this value.
    pub fn to_u32(self) -> (r: u32)
        ensures
            r == io_code(self),
    {
        match self {
            Io::Start => 0,
            Io::Id => 1,
            Io::Size => 2,
        }
    }

    /// Value for a numeric code; unknown codes are rejected.
    pub fn from_u32(v: u32) -> (r: Option<Io>)
        ensures
            r == spec_io_from(v),
    {
        if v == 0 {
            Option::Some(Io::Start)
        } else if v == 1 {
            Option::Some(Io::Id)
        } else if v == 2 {
            Option::Some(Io::Size)
        } else {
            Option::None
        }
    }
}

/// Round trip of the `Io` codes.
pub proof fn lemma_io_code_round_trip(t: Io)
    ensures
        spec_io_from(io_code(t)) == Option::Some(t),
{
}

impl ParamObject for Buffers {
    fn object_type() -> ObjectType {
        ObjectType::ParamBuffers
    }
}

impl ParamObject for Meta {
    fn object_type() -> ObjectType {
        ObjectType::ParamMeta
    }
}

impl ParamObject for Io {
    fn object_type() -> ObjectType {
        ObjectType::ParamIO
    }
}

} // verus!

//! Type model: POD kinds, object kinds and the owned value types. The
//! numeric codes are part of the external contract and are produced and
//! consumed by explicit conversion functions.

use vstd::prelude::*;

verus! {

/// The kind tag of a POD.
#[derive(Clone, Copy, Debug, PartialEq, Eq, Structural)]
pub enum Type {
    Start,
    NoneVal,
    Bool,
    Id,
    Int,
    Long,
    Float,
    Double,
    String,
    Bytes,
    Rectangle,
    Fraction,
    Bitmap,
    Array,
    Struct,
    Object,
    Sequence,
    Pointer,
    Fd,
    Choice,
    Pod,
}

/// The stable numeric code of each POD kind.
pub open spec fn type_code(t: Type) -> u32 {
    match t {
        Type::Start => 0,
        Type::NoneVal => 1,
        Type::Bool => 2,
        Type::Id => 3,
        Type::Int => 4,
        Type::Long => 5,
        Type::Float => 6,
        Type::Double => 7,
        Type::String => 8,
        Type::Bytes => 9,
        Type::Rectangle => 10,
        Type::Fraction => 11,
        Type::Bitmap => 12,
        Type::Array => 13,
        Type::Struct => 14,
        Type::Object => 15,
        Type::Sequence => 16,
        Type::Pointer => 17,
        Type::Fd => 18,
        Type::Choice => 19,
        Type::Pod => 20,
    }
}

/// The POD kind that a numeric code stands for, if any.
pub open spec fn spec_type_from(v: u32) -> Option<Type> {
    if v == 0 {
        Option::Some(Type::Start)
    } else if v == 1 {
        Option::Some(Type::NoneVal)
    } else if v == 2 {
        Option::Some(Type::Bool)
    } else if v == 3 {
        Option::Some(Type::Id)
    } else if v == 4 {
        Option::Some(Type::Int)
    } else if v == 5 {
        Option::Some(Type::Long)
    } else if v == 6 {
        Option::Some(Type::Float)
    } else if v == 7 {
        Option::Some(Type::Double)
    } else if v == 8 {
        Option::Some(Type::String)
    } else if v == 9 {
        Option::Some(Type::Bytes)
    } else if v == 10 {
        Option::Some(Type::Rectangle)
    } else if v == 11 {
        Option::Some(Type::Fraction)
    } else if v == 12 {
        Option::Some(Type::Bitmap)
    } else if v == 13 {
        Option::Some(Type::Array)
    } else if v == 14 {
        Option::Some(Type::Struct)
    } else if v == 15 {
        Option::Some(Type::Object)
    } else if v == 16 {
        Option::Some(Type::Sequence)
    } else if v == 17 {
        Option::Some(Type::Pointer)
    } else if v == 18 {
        Option::Some(Type::Fd)
    } else if v == 19 {
        Option::Some(Type::Choice)
    } else if v == 20 {
        Option::Some(Type::Pod)
    } else {
        Option::None
    }
}

impl Type {
    /// Numeric code of this kind.
    pub fn to_u32(self) -> (r: u32)
        ensures
            r == type_code(self),
    {
        match self {
            Type::Start => 0,
            Type::NoneVal => 1,
            Type::Bool => 2,
            Type::Id => 3,
            Type::Int => 4,
            Type::Long => 5,
            Type::Float => 6,
            Type::Double => 7,
            Type::String => 8,
            Type::Bytes => 9,
            Type::Rectangle => 10,
            Type::Fraction => 11,
            Type::Bitmap => 12,
            Type::Array => 13,
            Type::Struct => 14,
            Type::Object => 15,
            Type::Sequence => 16,
            Type::Pointer => 17,
            Type::Fd => 18,
            Type::Choice => 19,
            Type::Pod => 20,
        }
    }

    /// Kind for a numeric code; unknown codes are rejected.
    pub fn from_u32(v: u32) -> (r: Option<Type>)
        ensures
            r == spec_type_from(v),
    {
        if v == 0 {
            Option::Some(Type::Start)
        } else if v == 1 {
            Option::Some(Type::NoneVal)
        } else if v == 2 {
            Option::Some(Type::Bool)
        } else if v == 3 {
            Option::Some(Type::Id)
        } else if v == 4 {
            Option::Some(Type::Int)
        } else if v == 5 {
            Option::Some(Type::Long)
        } else if v == 6 {
            Option::Some(Type::Float)
        } else if v == 7 {
            Option::Some(Type::Double)
        } else if v == 8 {
            Option::Some(Type::String)
        } else if v == 9 {
            Option::Some(Type::Bytes)
        } else if v == 10 {
            Option::Some(Type::Rectangle)
        } else if v == 11 {
            Option::Some(Type::Fraction)
        } else if v == 12 {
            Option::Some(Type::Bitmap)
        } else if v == 13 {
            Option::Some(Type::Array)
        } else if v == 14 {
            Option::Some(Type::Struct)
        } else if v == 15 {
            Option::Some(Type::Object)
        } else if v == 16 {
            Option::Some(Type::Sequence)
        } else if v == 17 {
            Option::Some(Type::Pointer)
        } else if v == 18 {
            Option::Some(Type::Fd)
        } else if v == 19 {
            Option::Some(Type::Choice)
        } else if v == 20 {
            Option::Some(Type::Pod)
        } else {
            Option::None
        }
    }
}

/// Round trip of the kind codes: every kind survives its numeric encoding.
pub proof fn lemma_type_code_round_trip(t: Type)
    ensures
        spec_type_from(type_code(t)) == Option::Some(t),
{
}

/// The kind tag of an Object POD body.
#[derive(Clone, Copy, Debug, PartialEq, Eq, Structural)]
pub enum ObjectType {
    Start,
    PropInfo,
    Props,
    Format,
    ParamBuffers,
    ParamMeta,
    ParamIO,
    ParamProfile,
    ParamPortConfig,
    ParamRoute,
    Profiler,
    ParamLatency,
    ParamProcessLatency,
    ParamTag,
}

/// The stable numeric code of each object kind; the block begins at 0x40000.
pub open spec fn object_type_code(t: ObjectType) -> u32 {
    match t {
        ObjectType::Start => 0x40000,
        ObjectType::PropInfo => 0x40001,
        ObjectType::Props => 0x40002,
        ObjectType::Format => 0x40003,
        ObjectType::ParamBuffers => 0x40004,
        ObjectType::ParamMeta => 0x40005,
        ObjectType::ParamIO => 0x40006,
        ObjectType::ParamProfile => 0x40007,
        ObjectType::ParamPortConfig => 0x40008,
        ObjectType::ParamRoute => 0x40009,
        ObjectType::Profiler => 0x4000A,
        ObjectType::ParamLatency => 0x4000B,
        ObjectType::ParamProcessLatency => 0x4000C,
        ObjectType::ParamTag => 0x4000D,
    }
}

/// The object kind that a numeric code stands for, if any.
pub open spec fn spec_object_type_from(v: u32) -> Option<ObjectType> {
    if v == 0x40000 {
        Option::Some(ObjectType::Start)
    } else if v == 0x40001 {
        Option::Some(ObjectType::PropInfo)
    } else if v == 0x40002 {
        Option::Some(ObjectType::Props)
    } else if v == 0x40003 {
        Option::Some(ObjectType::Format)
    } else if v == 0x40004 {
        Option::Some(ObjectType::ParamBuffers)
    } else if v == 0x40005 {
        Option::Some(ObjectType::ParamMeta)
    } else if v == 0x40006 {
        Option::Some(ObjectType::ParamIO)
    } else if v == 0x40007 {
        Option::Some(ObjectType::ParamProfile)
    } else if v == 0x40008 {
        Option::Some(ObjectType::ParamPortConfig)
    } else if v == 0x40009 {
        Option::Some(ObjectType::ParamRoute)
    } else if v == 0x4000A {
        Option::Some(ObjectType::Profiler)
    } else if v == 0x4000B {
        Option::Some(ObjectType::ParamLatency)
    } else if v == 0x4000C {
        Option::Some(ObjectType::ParamProcessLatency)
    } else if v == 0x4000D {
        Option::Some(ObjectType::ParamTag)
    } else {
        Option::None
    }
}

impl ObjectType {
    /// Numeric code of this object kind.
    pub fn to_u32(self) -> (r: u32)
        ensures
            r == object_type_code(self),
    {
        match self {
            ObjectType::Start => 0x40000,
            ObjectType::PropInfo => 0x40001,
            ObjectType::Props => 0x40002,
            ObjectType::Format => 0x40003,
            ObjectType::ParamBuffers => 0x40004,
            ObjectType::ParamMeta => 0x40005,
            ObjectType::ParamIO => 0x40006,
            ObjectType::ParamProfile => 0x40007,
            ObjectType::ParamPortConfig => 0x40008,
            ObjectType::ParamRoute => 0x40009,
            ObjectType::Profiler => 0x4000A,
            ObjectType::ParamLatency => 0x4000B,
            ObjectType::ParamProcessLatency => 0x4000C,
            ObjectType::ParamTag => 0x4000D,
        }
    }

    /// Object kind for a numeric code; unknown codes are rejected.
    pub fn from_u32(v: u32) -> (r: Option<ObjectType>)
        ensures
            r == spec_object_type_from(v),
    {
        if v == 0x40000 {
            Option::Some(ObjectType::Start)
        } else if v == 0x40001 {
            Option::Some(ObjectType::PropInfo)
        } else if v == 0x40002 {
            Option::Some(ObjectType::Props)
        } else if v == 0x40003 {
            Option::Some(ObjectType::Format)
        } else if v == 0x40004 {
            Option::Some(ObjectType::ParamBuffers)
        } else if v == 0x40005 {
            Option::Some(ObjectType::ParamMeta)
        } else if v == 0x40006 {
            Option::Some(ObjectType::ParamIO)
        } else if v == 0x40007 {
            Option::Some(ObjectType::ParamProfile)
        } else if v == 0x40008 {
            Option::Some(ObjectType::ParamPortConfig)
        } else if v == 0x40009 {
            Option::Some(ObjectType::ParamRoute)
        } else if v == 0x4000A {
            Option::Some(ObjectType::Profiler)
        } else if v == 0x4000B {
            Option::Some(ObjectType::ParamLatency)
        } else if v == 0x4000C {
            Option::Some(ObjectType::ParamProcessLatency)
        } else if v == 0x4000D {
            Option::Some(ObjectType::ParamTag)
        } else {
            Option::None
        }
    }
}

/// Round trip of the object kind codes.
pub proof fn lemma_object_type_code_round_trip(t: ObjectType)
    ensures
        spec_object_type_from(object_type_code(t)) == Option::Some(t),
{
}

/// A typed wrapper over a 32-bit enumerator.
#[derive(Clone, Copy, Debug, PartialEq, Eq, Structural)]
pub struct Id(pub u32);

/// A native file descriptor, transported on the wire as a signed 64-bit value.
#[derive(Clone, Copy, Debug, PartialEq, Eq, Structural)]
pub struct Fd(pub i32);

/// A 32-bit IEEE-754 value, carried by its bit pattern.
#[derive(Clone, Copy, Debug, PartialEq, Eq, Structural)]
pub struct Float(pub u32);

/// A 64-bit IEEE-754 value, carried by its bit pattern.
#[derive(Clone, Copy, Debug, PartialEq, Eq, Structural)]
pub struct Double(pub u64);

/// Two unsigned 32-bit components: width and height.
#[derive(Clone, Copy, Debug, PartialEq, Eq, Structural)]
pub struct Rectangle {
    pub width: u32,
    pub height: u32,
}

/// Two unsigned 32-bit components: numerator and denominator.
#[derive(Clone, Copy, Debug, PartialEq, Eq, Structural)]
pub struct Fraction {
    pub num: u32,
    pub denom: u32,
}

/// A POD-kind tag plus a raw native pointer, carried as a 64-bit word.
#[derive(Clone, Copy, Debug, PartialEq, Eq, Structural)]
pub struct Pointer {
    pub type_: Type,
    pub ptr: u64,
}

/// A constrained sum over a primitive value.
#[derive(Clone, Debug, PartialEq, Eq)]
pub enum Choice<T> {
    NoneVal(T),
    Range { default: T, min: T, max: T },
    Step { default: T, min: T, max: T, step: T },
    Enum { default: T, alternatives: Vec<T> },
    Flags { default: T, flags: T },
}

/// The numeric code of a choice variant.
pub open spec fn choice_variant_code<T>(c: Choice<T>) -> u32 {
    match c {
        Choice::NoneVal(_) => 0,
        Choice::Range { .. } => 1,
        Choice::Step { .. } => 2,
        Choice::Enum { .. } => 3,
        Choice::Flags { .. } => 4,
    }
}

/// Mask of the defined property flag bits. `DONT_FIXATE` is the literal
/// composite 0xF carried over from the external contract, so the mask is the
/// low four bits.
pub const PROPERTY_FLAGS_MASK: u32 = 0xF;

pub const PROPERTY_FLAG_READ_ONLY: u32 = 0x1;

pub const PROPERTY_FLAG_HARDWARE: u32 = 0x2;

pub const PROPERTY_FLAG_HINT_DICT: u32 = 0x4;

pub const PROPERTY_FLAG_MANDATORY: u32 = 0x8;

pub const PROPERTY_FLAG_DONT_FIXATE: u32 = 0xF;

/// The 32-bit flag set attached to an object property.
#[derive(Clone, Copy, Debug, PartialEq, Eq, Structural)]
pub struct PropertyFlags(pub u32);

impl PropertyFlags {
    /// Accept a raw word only when it holds no undefined bits.
    pub fn from_bits(v: u32) -> (r: Option<PropertyFlags>)
        ensures
            v & !PROPERTY_FLAGS_MASK == 0 ==> r == Option::Some(PropertyFlags(v)),
            v & !PROPERTY_FLAGS_MASK != 0 ==> r is None,
    {
        if v & !PROPERTY_FLAGS_MASK == 0 {
            Option::Some(PropertyFlags(v))
        } else {
            Option::None
        }
    }

    /// The raw word.
    pub fn bits(self) -> (r: u32)
        ensures
            r == self.0,
    {
        self.0
    }
}

/// One object property: a key, a flag set and a value POD.
#[derive(Clone, Debug, PartialEq, Eq)]
pub struct Property<K, V> {
    pub key: K,
    pub flags: PropertyFlags,
    pub value: V,
}

} // verus!

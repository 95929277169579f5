//! Keys of PropInfo and Props objects.

use vstd::prelude::*;

use crate::param::ParamObject;
use crate::pod::types::ObjectType;

verus! {

/// Keys of a PropInfo object.
#[derive(Clone, Copy, Debug, PartialEq, Eq, Structural)]
pub enum PropInfo {
    Start,
    Id,
    Name,
    Type,
    Labels,
    Container,
    Params,
    Description,
}

/// The stable numeric code of each `PropInfo` value.
pub open spec fn propinfo_code(t: PropInfo) -> u32 {
    match t {
        PropInfo::Start => 0,
        PropInfo::Id => 1,
        PropInfo::Name => 2,
        PropInfo::Type => 3,
        PropInfo::Labels => 4,
        PropInfo::Container => 5,
        PropInfo::Params => 6,
        PropInfo::Description => 7,
    }
}

/// The `PropInfo` value that a numeric code stands for, if any.
pub open spec fn spec_propinfo_from(v: u32) -> Option<PropInfo> {
    if v == 0 {
        Option::Some(PropInfo::Start)
    } else if v == 1 {
        Option::Some(PropInfo::Id)
    } else if v == 2 {
        Option::Some(PropInfo::Name)
    } else if v == 3 {
        Option::Some(PropInfo::Type)
    } else if v == 4 {
        Option::Some(PropInfo::Labels)
    } else if v == 5 {
        Option::Some(PropInfo::Container)
    } else if v == 6 {
        Option::Some(PropInfo::Params)
    } else if v == 7 {
        Option::Some(PropInfo::Description)
    } else {
        Option::None
    }
}

impl PropInfo {
    /// Numeric code of this value.
    pub fn to_u32(self) -> (r: u32)
        ensures
            r == propinfo_code(self),
    {
        match self {
            PropInfo::Start => 0,
            PropInfo::Id => 1,
            PropInfo::Name => 2,
            PropInfo::Type => 3,
            PropInfo::Labels => 4,
            PropInfo::Container => 5,
            PropInfo::Params => 6,
            PropInfo::Description => 7,
        }
    }

    /// Value for a numeric code; unknown codes are rejected.
    pub fn from_u32(v: u32) -> (r: Option<PropInfo>)
        ensures
            r == spec_propinfo_from(v),
    {
        if v == 0 {
            Option::Some(PropInfo::Start)
        } else if v == 1 {
            Option::Some(PropInfo::Id)
        } else if v == 2 {
            Option::Some(PropInfo::Name)
        } else if v == 3 {
            Option::Some(PropInfo::Type)
        } else if v == 4 {
            Option::Some(PropInfo::Labels)
        } else if v == 5 {
            Option::Some(PropInfo::Container)
        } else if v == 6 {
            Option::Some(PropInfo::Params)
        } else if v == 7 {
            Option::Some(PropInfo::Description)
        } else {
            Option::None
        }
    }
}

/// Round trip of the `PropInfo` codes.
pub proof fn lemma_propinfo_code_round_trip(t: PropInfo)
    ensures
        spec_propinfo_from(propinfo_code(t)) == Option::Some(t),
{
}
/// Keys of a Props object.
#[derive(Clone, Copy, Debug, PartialEq, Eq, Structural)]
pub enum Prop {
    Start,
    Unknown,
    StartDevice,
    Device,
    DeviceName,
    DeviceFd,
    Card,
    CardName,
    MinLatency,
    MaxLatency,
    Periods,
    PeriodSize,
    PeriodEvent,
    Live,
    Rate,
    Quality,
    BluetoothAudioCodec,
    BluetoothOffloadActive,
    StartAudio,
    WaveType,
    Frequency,
    Volume,
    Mute,
    PatternType,
    DitherType,
    Truncate,
    ChannelVolumes,
    VolumeBase,
    VolumeStep,
    ChannelMap,
    MonitorMute,
    MonitorVolumes,
    LatencyOffsetNsec,
    SoftMute,
    SoftVolumes,
    Iec958Codecs,
    VolumeRampSamples,
    VolumeRampStepSamples,
    VolumeRampTime,
    VolumeRampStepTime,
    VolumeRampScale,
    StartVideo,
    Brightness,
    Contrast,
    Saturation,
    Hue,
    Gamma,
    Exposure,
    Gain,
    Sharpness,
    StartOther,
    Params,
    StartCustom,
}

/// The stable numeric code of each `Prop` value.
pub open spec fn prop_code(t: Prop) -> u32 {
    match t {
        Prop::Start => 0,
        Prop::Unknown => 1,
        Prop::StartDevice => 0x100,
        Prop::Device => 0x101,
        Prop::DeviceName => 0x102,
        Prop::DeviceFd => 0x103,
        Prop::Card => 0x104,
        Prop::CardName => 0x105,
        Prop::MinLatency => 0x106,
        Prop::MaxLatency => 0x107,
        Prop::Periods => 0x108,
        Prop::PeriodSize => 0x109,
        Prop::PeriodEvent => 0x10a,
        Prop::Live => 0x10b,
        Prop::Rate => 0x10c,
        Prop::Quality => 0x10d,
        Prop::BluetoothAudioCodec => 0x10e,
        Prop::BluetoothOffloadActive => 0x10f,
        Prop::StartAudio => 0x10000,
        Prop::WaveType => 0x10001,
        Prop::Frequency => 0x10002,
        Prop::Volume => 0x10003,
        Prop::Mute => 0x10004,
        Prop::PatternType => 0x10005,
        Prop::DitherType => 0x10006,
        Prop::Truncate => 0x10007,
        Prop::ChannelVolumes => 0x10008,
        Prop::VolumeBase => 0x10009,
        Prop::VolumeStep => 0x1000a,
        Prop::ChannelMap => 0x1000b,
        Prop::MonitorMute => 0x1000c,
        Prop::MonitorVolumes => 0x1000d,
        Prop::LatencyOffsetNsec => 0x1000e,
        Prop::SoftMute => 0x1000f,
        Prop::SoftVolumes => 0x10010,
        Prop::Iec958Codecs => 0x10011,
        Prop::VolumeRampSamples => 0x10012,
        Prop::VolumeRampStepSamples => 0x10013,
        Prop::VolumeRampTime => 0x10014,
        Prop::VolumeRampStepTime => 0x10015,
        Prop::VolumeRampScale => 0x10016,
        Prop::StartVideo => 0x20000,
        Prop::Brightness => 0x20001,
        Prop::Contrast => 0x20002,
        Prop::Saturation => 0x20003,
        Prop::Hue => 0x20004,
        Prop::Gamma => 0x20005,
        Prop::Exposure => 0x20006,
        Prop::Gain => 0x20007,
        Prop::Sharpness => 0x20008,
        Prop::StartOther => 0x80000,
        Prop::Params => 0x80001,
        Prop::StartCustom => 0x1000000,
    }
}

/// The `Prop` value that a numeric code stands for, if any.
pub open spec fn spec_prop_from(v: u32) -> Option<Prop> {
    if v == 0 {
        Option::Some(Prop::Start)
    } else if v == 1 {
        Option::Some(Prop::Unknown)
    } else if v == 0x100 {
        Option::Some(Prop::StartDevice)
    } else if v == 0x101 {
        Option::Some(Prop::Device)
    } else if v == 0x102 {
        Option::Some(Prop::DeviceName)
    } else if v == 0x103 {
        Option::Some(Prop::DeviceFd)
    } else if v == 0x104 {
        Option::Some(Prop::Card)
    } else if v == 0x105 {
        Option::Some(Prop::CardName)
    } else if v == 0x106 {
        Option::Some(Prop::MinLatency)
    } else if v == 0x107 {
        Option::Some(Prop::MaxLatency)
    } else if v == 0x108 {
        Option::Some(Prop::Periods)
    } else if v == 0x109 {
        Option::Some(Prop::PeriodSize)
    } else if v == 0x10a {
        Option::Some(Prop::PeriodEvent)
    } else if v == 0x10b {
        Option::Some(Prop::Live)
    } else if v == 0x10c {
        Option::Some(Prop::Rate)
    } else if v == 0x10d {
        Option::Some(Prop::Quality)
    } else if v == 0x10e {
        Option::Some(Prop::BluetoothAudioCodec)
    } else if v == 0x10f {
        Option::Some(Prop::BluetoothOffloadActive)
    } else if v == 0x10000 {
        Option::Some(Prop::StartAudio)
    } else if v == 0x10001 {
        Option::Some(Prop::WaveType)
    } else if v == 0x10002 {
        Option::Some(Prop::Frequency)
    } else if v == 0x10003 {
        Option::Some(Prop::Volume)
    } else if v == 0x10004 {
        Option::Some(Prop::Mute)
    } else if v == 0x10005 {
        Option::Some(Prop::PatternType)
    } else if v == 0x10006 {
        Option::Some(Prop::DitherType)
    } else if v == 0x10007 {
        Option::Some(Prop::Truncate)
    } else if v == 0x10008 {
        Option::Some(Prop::ChannelVolumes)
    } else if v == 0x10009 {
        Option::Some(Prop::VolumeBase)
    } else if v == 0x1000a {
        Option::Some(Prop::VolumeStep)
    } else if v == 0x1000b {
        Option::Some(Prop::ChannelMap)
    } else if v == 0x1000c {
        Option::Some(Prop::MonitorMute)
    } else if v == 0x1000d {
        Option::Some(Prop::MonitorVolumes)
    } else if v == 0x1000e {
        Option::Some(Prop::LatencyOffsetNsec)
    } else if v == 0x1000f {
        Option::Some(Prop::SoftMute)
    } else if v == 0x10010 {
        Option::Some(Prop::SoftVolumes)
    } else if v == 0x10011 {
        Option::Some(Prop::Iec958Codecs)
    } else if v == 0x10012 {
        Option::Some(Prop::VolumeRampSamples)
    } else if v == 0x10013 {
        Option::Some(Prop::VolumeRampStepSamples)
    } else if v == 0x10014 {
        Option::Some(Prop::VolumeRampTime)
    } else if v == 0x10015 {
        Option::Some(Prop::VolumeRampStepTime)
    } else if v == 0x10016 {
        Option::Some(Prop::VolumeRampScale)
    } else if v == 0x20000 {
        Option::Some(Prop::StartVideo)
    } else if v == 0x20001 {
        Option::Some(Prop::Brightness)
    } else if v == 0x20002 {
        Option::Some(Prop::Contrast)
    } else if v == 0x20003 {
        Option::Some(Prop::Saturation)
    } else if v == 0x20004 {
        Option::Some(Prop::Hue)
    } else if v == 0x20005 {
        Option::Some(Prop::Gamma)
    } else if v == 0x20006 {
        Option::Some(Prop::Exposure)
    } else if v == 0x20007 {
        Option::Some(Prop::Gain)
    } else if v == 0x20008 {
        Option::Some(Prop::Sharpness)
    } else if v == 0x80000 {
        Option::Some(Prop::StartOther)
    } else if v == 0x80001 {
        Option::Some(Prop::Params)
    } else if v == 0x1000000 {
        Option::Some(Prop::StartCustom)
    } else {
        Option::None
    }
}

impl Prop {
    /// Numeric code of this value.
    pub fn to_u32(self) -> (r: u32)
        ensures
            r == prop_code(self),
    {
        match self {
            Prop::Start => 0,
            Prop::Unknown => 1,
            Prop::StartDevice => 0x100,
            Prop::Device => 0x101,
            Prop::DeviceName => 0x102,
            Prop::DeviceFd => 0x103,
            Prop::Card => 0x104,
            Prop::CardName => 0x105,
            Prop::MinLatency => 0x106,
            Prop::MaxLatency => 0x107,
            Prop::Periods => 0x108,
            Prop::PeriodSize => 0x109,
            Prop::PeriodEvent => 0x10a,
            Prop::Live => 0x10b,
            Prop::Rate => 0x10c,
            Prop::Quality => 0x10d,
            Prop::BluetoothAudioCodec => 0x10e,
            Prop::BluetoothOffloadActive => 0x10f,
            Prop::StartAudio => 0x10000,
            Prop::WaveType => 0x10001,
            Prop::Frequency => 0x10002,
            Prop::Volume => 0x10003,
            Prop::Mute => 0x10004,
            Prop::PatternType => 0x10005,
            Prop::DitherType => 0x10006,
            Prop::Truncate => 0x10007,
            Prop::ChannelVolumes => 0x10008,
            Prop::VolumeBase => 0x10009,
            Prop::VolumeStep => 0x1000a,
            Prop::ChannelMap => 0x1000b,
            Prop::MonitorMute => 0x1000c,
            Prop::MonitorVolumes => 0x1000d,
            Prop::LatencyOffsetNsec => 0x1000e,
            Prop::SoftMute => 0x1000f,
            Prop::SoftVolumes => 0x10010,
            Prop::Iec958Codecs => 0x10011,
            Prop::VolumeRampSamples => 0x10012,
            Prop::VolumeRampStepSamples => 0x10013,
            Prop::VolumeRampTime => 0x10014,
            Prop::VolumeRampStepTime => 0x10015,
            Prop::VolumeRampScale => 0x10016,
            Prop::StartVideo => 0x20000,
            Prop::Brightness => 0x20001,
            Prop::Contrast => 0x20002,
            Prop::Saturation => 0x20003,
            Prop::Hue => 0x20004,
            Prop::Gamma => 0x20005,
            Prop::Exposure => 0x20006,
            Prop::Gain => 0x20007,
            Prop::Sharpness => 0x20008,
            Prop::StartOther => 0x80000,
            Prop::Params => 0x80001,
            Prop::StartCustom => 0x1000000,
        }
    }

    /// Value for a numeric code; unknown codes are rejected.
    pub fn from_u32(v: u32) -> (r: Option<Prop>)
        ensures
            r == spec_prop_from(v),
    {
        if v == 0 {
            Option::Some(Prop::Start)
        } else if v == 1 {
            Option::Some(Prop::Unknown)
        } else if v == 0x100 {
            Option::Some(Prop::StartDevice)
        } else if v == 0x101 {
            Option::Some(Prop::Device)
        } else if v == 0x102 {
            Option::Some(Prop::DeviceName)
        } else if v == 0x103 {
            Option::Some(Prop::DeviceFd)
        } else if v == 0x104 {
            Option::Some(Prop::Card)
        } else if v == 0x105 {
            Option::Some(Prop::CardName)
        } else if v == 0x106 {
            Option::Some(Prop::MinLatency)
        } else if v == 0x107 {
            Option::Some(Prop::MaxLatency)
        } else if v == 0x108 {
            Option::Some(Prop::Periods)
        } else if v == 0x109 {
            Option::Some(Prop::PeriodSize)
        } else if v == 0x10a {
            Option::Some(Prop::PeriodEvent)
        } else if v == 0x10b {
            Option::Some(Prop::Live)
        } else if v == 0x10c {
            Option::Some(Prop::Rate)
        } else if v == 0x10d {
            Option::Some(Prop::Quality)
        } else if v == 0x10e {
            Option::Some(Prop::BluetoothAudioCodec)
        } else if v == 0x10f {
            Option::Some(Prop::BluetoothOffloadActive)
        } else if v == 0x10000 {
            Option::Some(Prop::StartAudio)
        } else if v == 0x10001 {
            Option::Some(Prop::WaveType)
        } else if v == 0x10002 {
            Option::Some(Prop::Frequency)
        } else if v == 0x10003 {
            Option::Some(Prop::Volume)
        } else if v == 0x10004 {
            Option::Some(Prop::Mute)
        } else if v == 0x10005 {
            Option::Some(Prop::PatternType)
        } else if v == 0x10006 {
            Option::Some(Prop::DitherType)
        } else if v == 0x10007 {
            Option::Some(Prop::Truncate)
        } else if v == 0x10008 {
            Option::Some(Prop::ChannelVolumes)
        } else if v == 0x10009 {
            Option::Some(Prop::VolumeBase)
        } else if v == 0x1000a {
            Option::Some(Prop::VolumeStep)
        } else if v == 0x1000b {
            Option::Some(Prop::ChannelMap)
        } else if v == 0x1000c {
            Option::Some(Prop::MonitorMute)
        } else if v == 0x1000d {
            Option::Some(Prop::MonitorVolumes)
        } else if v == 0x1000e {
            Option::Some(Prop::LatencyOffsetNsec)
        } else if v == 0x1000f {
            Option::Some(Prop::SoftMute)
        } else if v == 0x10010 {
            Option::Some(Prop::SoftVolumes)
        } else if v == 0x10011 {
            Option::Some(Prop::Iec958Codecs)
        } else if v == 0x10012 {
            Option::Some(Prop::VolumeRampSamples)
        } else if v == 0x10013 {
            Option::Some(Prop::VolumeRampStepSamples)
        } else if v == 0x10014 {
            Option::Some(Prop::VolumeRampTime)
        } else if v == 0x10015 {
            Option::Some(Prop::VolumeRampStepTime)
        } else if v == 0x10016 {
            Option::Some(Prop::VolumeRampScale)
        } else if v == 0x20000 {
            Option::Some(Prop::StartVideo)
        } else if v == 0x20001 {
            Option::Some(Prop::Brightness)
        } else if v == 0x20002 {
            Option::Some(Prop::Contrast)
        } else if v == 0x20003 {
            Option::Some(Prop::Saturation)
        } else if v == 0x20004 {
            Option::Some(Prop::Hue)
        } else if v == 0x20005 {
            Option::Some(Prop::Gamma)
        } else if v == 0x20006 {
            Option::Some(Prop::Exposure)
        } else if v == 0x20007 {
            Option::Some(Prop::Gain)
        } else if v == 0x20008 {
            Option::Some(Prop::Sharpness)
        } else if v == 0x80000 {
            Option::Some(Prop::StartOther)
        } else if v == 0x80001 {
            Option::Some(Prop::Params)
        } else if v == 0x1000000 {
            Option::Some(Prop::StartCustom)
        } else {
            Option::None
        }
    }
}

/// Round trip of the `Prop` codes.
pub proof fn lemma_prop_code_round_trip(t: Prop)
    ensures
        spec_prop_from(prop_code(t)) == Option::Some(t),
{
}

impl ParamObject for PropInfo {
    fn object_type() -> ObjectType {
        ObjectType::PropInfo
    }
}

impl ParamObject for Prop {
    fn object_type() -> ObjectType {
        ObjectType::Props
    }
}

} // verus!

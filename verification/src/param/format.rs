//! Keys of format objects and the media type enumerations.

use vstd::prelude::*;

use crate::param::ParamObject;
use crate::pod::types::ObjectType;

verus! {

/// The top-level media class of a format.
#[derive(Clone, Copy, Debug, PartialEq, Eq, Structural)]
pub enum MediaType {
    Unknown,
    Audio,
    Video,
    Image,
    Binary,
    Stream,
    Application,
}

/// The stable numeric code of each `MediaType` value.
pub open spec fn mediatype_code(t: MediaType) -> u32 {
    match t {
        MediaType::Unknown => 0,
        MediaType::Audio => 1,
        MediaType::Video => 2,
        MediaType::Image => 3,
        MediaType::Binary => 4,
        MediaType::Stream => 5,
        MediaType::Application => 6,
    }
}

/// The `MediaType` value that a numeric code stands for, if any.
pub open spec fn spec_mediatype_from(v: u32) -> Option<MediaType> {
    if v == 0 {
        Option::Some(MediaType::Unknown)
    } else if v == 1 {
        Option::Some(MediaType::Audio)
    } else if v == 2 {
        Option::Some(MediaType::Video)
    } else if v == 3 {
        Option::Some(MediaType::Image)
    } else if v == 4 {
        Option::Some(MediaType::Binary)
    } else if v == 5 {
        Option::Some(MediaType::Stream)
    } else if v == 6 {
        Option::Some(MediaType::Application)
    } else {
        Option::None
    }
}

impl MediaType {
    /// Numeric code of this value.
    pub fn to_u32(self) -> (r: u32)
        ensures
            r == mediatype_code(self),
    {
        match self {
            MediaType::Unknown => 0,
            MediaType::Audio => 1,
            MediaType::Video => 2,
            MediaType::Image => 3,
            MediaType::Binary => 4,
            MediaType::Stream => 5,
            MediaType::Application => 6,
        }
    }

    /// Value for a numeric code; unknown codes are rejected.
    pub fn from_u32(v: u32) -> (r: Option<MediaType>)
        ensures
            r == spec_mediatype_from(v),
    {
        if v == 0 {
            Option::Some(MediaType::Unknown)
        } else if v == 1 {
            Option::Some(MediaType::Audio)
        } else if v == 2 {
            Option::Some(MediaType::Video)
        } else if v == 3 {
            Option::Some(MediaType::Image)
        } else if v == 4 {
            Option::Some(MediaType::Binary)
        } else if v == 5 {
            Option::Some(MediaType::Stream)
        } else if v == 6 {
            Option::Some(MediaType::Application)
        } else {
            Option::None
        }
    }
}

/// Round trip of the `MediaType` codes.
pub proof fn lemma_mediatype_code_round_trip(t: MediaType)
    ensures
        spec_mediatype_from(mediatype_code(t)) == Option::Some(t),
{
}
/// The media subtype of a format.
#[derive(Clone, Copy, Debug, PartialEq, Eq, Structural)]
pub enum MediaSubtype {
    Unknown,
    Raw,
    Dsp,
    Iec958,
    Dsd,
    StartAudio,
    Mp3,
    Aac,
    Vorbis,
    Wma,
    Ra,
    Sbc,
    Adpcm,
    G723,
    G726,
    G729,
    Amr,
    Gsm,
    Alac,
    Flac,
    Ape,
    Opus,
    StartVideo,
    H264,
    Mjpg,
    Dv,
    Mpegts,
    H263,
    Mpeg1,
    Mpeg2,
    Mpeg4,
    Xvid,
    Vc1,
    Vp8,
    Vp9,
    Bayer,
    H265,
    StartImage,
    Jpeg,
    StartBinary,
    StartStream,
    Midi,
    StartApplication,
    Control,
}

/// The stable numeric code of each `MediaSubtype` value.
pub open spec fn mediasubtype_code(t: MediaSubtype) -> u32 {
    match t {
        MediaSubtype::Unknown => 0,
        MediaSubtype::Raw => 1,
        MediaSubtype::Dsp => 2,
        MediaSubtype::Iec958 => 3,
        MediaSubtype::Dsd => 4,
        MediaSubtype::StartAudio => 0x10000,
        MediaSubtype::Mp3 => 0x10001,
        MediaSubtype::Aac => 0x10002,
        MediaSubtype::Vorbis => 0x10003,
        MediaSubtype::Wma => 0x10004,
        MediaSubtype::Ra => 0x10005,
        MediaSubtype::Sbc => 0x10006,
        MediaSubtype::Adpcm => 0x10007,
        MediaSubtype::G723 => 0x10008,
        MediaSubtype::G726 => 0x10009,
        MediaSubtype::G729 => 0x1000a,
        MediaSubtype::Amr => 0x1000b,
        MediaSubtype::Gsm => 0x1000c,
        MediaSubtype::Alac => 0x1000d,
        MediaSubtype::Flac => 0x1000e,
        MediaSubtype::Ape => 0x1000f,
        MediaSubtype::Opus => 0x10010,
        MediaSubtype::StartVideo => 0x20000,
        MediaSubtype::H264 => 0x20001,
        MediaSubtype::Mjpg => 0x20002,
        MediaSubtype::Dv => 0x20003,
        MediaSubtype::Mpegts => 0x20004,
        MediaSubtype::H263 => 0x20005,
        MediaSubtype::Mpeg1 => 0x20006,
        MediaSubtype::Mpeg2 => 0x20007,
        MediaSubtype::Mpeg4 => 0x20008,
        MediaSubtype::Xvid => 0x20009,
        MediaSubtype::Vc1 => 0x2000a,
        MediaSubtype::Vp8 => 0x2000b,
        MediaSubtype::Vp9 => 0x2000c,
        MediaSubtype::Bayer => 0x2000d,
        MediaSubtype::H265 => 0x2000e,
        MediaSubtype::StartImage => 0x30000,
        MediaSubtype::Jpeg => 0x30001,
        MediaSubtype::StartBinary => 0x40000,
        MediaSubtype::StartStream => 0x50000,
        MediaSubtype::Midi => 0x50001,
        MediaSubtype::StartApplication => 0x60000,
        MediaSubtype::Control => 0x60001,
    }
}

/// The `MediaSubtype` value that a numeric code stands for, if any.
pub open spec fn spec_mediasubtype_from(v: u32) -> Option<MediaSubtype> {
    if v == 0 {
        Option::Some(MediaSubtype::Unknown)
    } else if v == 1 {
        Option::Some(MediaSubtype::Raw)
    } else if v == 2 {
        Option::Some(MediaSubtype::Dsp)
    } else if v == 3 {
        Option::Some(MediaSubtype::Iec958)
    } else if v == 4 {
        Option::Some(MediaSubtype::Dsd)
    } else if v == 0x10000 {
        Option::Some(MediaSubtype::StartAudio)
    } else if v == 0x10001 {
        Option::Some(MediaSubtype::Mp3)
    } else if v == 0x10002 {
        Option::Some(MediaSubtype::Aac)
    } else if v == 0x10003 {
        Option::Some(MediaSubtype::Vorbis)
    } else if v == 0x10004 {
        Option::Some(MediaSubtype::Wma)
    } else if v == 0x10005 {
        Option::Some(MediaSubtype::Ra)
    } else if v == 0x10006 {
        Option::Some(MediaSubtype::Sbc)
    } else if v == 0x10007 {
        Option::Some(MediaSubtype::Adpcm)
    } else if v == 0x10008 {
        Option::Some(MediaSubtype::G723)
    } else if v == 0x10009 {
        Option::Some(MediaSubtype::G726)
    } else if v == 0x1000a {
        Option::Some(MediaSubtype::G729)
    } else if v == 0x1000b {
        Option::Some(MediaSubtype::Amr)
    } else if v == 0x1000c {
        Option::Some(MediaSubtype::Gsm)
    } else if v == 0x1000d {
        Option::Some(MediaSubtype::Alac)
    } else if v == 0x1000e {
        Option::Some(MediaSubtype::Flac)
    } else if v == 0x1000f {
        Option::Some(MediaSubtype::Ape)
    } else if v == 0x10010 {
        Option::Some(MediaSubtype::Opus)
    } else if v == 0x20000 {
        Option::Some(MediaSubtype::StartVideo)
    } else if v == 0x20001 {
        Option::Some(MediaSubtype::H264)
    } else if v == 0x20002 {
        Option::Some(MediaSubtype::Mjpg)
    } else if v == 0x20003 {
        Option::Some(MediaSubtype::Dv)
    } else if v == 0x20004 {
        Option::Some(MediaSubtype::Mpegts)
    } else if v == 0x20005 {
        Option::Some(MediaSubtype::H263)
    } else if v == 0x20006 {
        Option::Some(MediaSubtype::Mpeg1)
    } else if v == 0x20007 {
        Option::Some(MediaSubtype::Mpeg2)
    } else if v == 0x20008 {
        Option::Some(MediaSubtype::Mpeg4)
    } else if v == 0x20009 {
        Option::Some(MediaSubtype::Xvid)
    } else if v == 0x2000a {
        Option::Some(MediaSubtype::Vc1)
    } else if v == 0x2000b {
        Option::Some(MediaSubtype::Vp8)
    } else if v == 0x2000c {
        Option::Some(MediaSubtype::Vp9)
    } else if v == 0x2000d {
        Option::Some(MediaSubtype::Bayer)
    } else if v == 0x2000e {
        Option::Some(MediaSubtype::H265)
    } else if v == 0x30000 {
        Option::Some(MediaSubtype::StartImage)
    } else if v == 0x30001 {
        Option::Some(MediaSubtype::Jpeg)
    } else if v == 0x40000 {
        Option::Some(MediaSubtype::StartBinary)
    } else if v == 0x50000 {
        Option::Some(MediaSubtype::StartStream)
    } else if v == 0x50001 {
        Option::Some(MediaSubtype::Midi)
    } else if v == 0x60000 {
        Option::Some(MediaSubtype::StartApplication)
    } else if v == 0x60001 {
        Option::Some(MediaSubtype::Control)
    } else {
        Option::None
    }
}

impl MediaSubtype {
    /// Numeric code of this value.
    pub fn to_u32(self) -> (r: u32)
        ensures
            r == mediasubtype_code(self),
    {
        match self {
            MediaSubtype::Unknown => 0,
            MediaSubtype::Raw => 1,
            MediaSubtype::Dsp => 2,
            MediaSubtype::Iec958 => 3,
            MediaSubtype::Dsd => 4,
            MediaSubtype::StartAudio => 0x10000,
            MediaSubtype::Mp3 => 0x10001,
            MediaSubtype::Aac => 0x10002,
            MediaSubtype::Vorbis => 0x10003,
            MediaSubtype::Wma => 0x10004,
            MediaSubtype::Ra => 0x10005,
            MediaSubtype::Sbc => 0x10006,
            MediaSubtype::Adpcm => 0x10007,
            MediaSubtype::G723 => 0x10008,
            MediaSubtype::G726 => 0x10009,
            MediaSubtype::G729 => 0x1000a,
            MediaSubtype::Amr => 0x1000b,
            MediaSubtype::Gsm => 0x1000c,
            MediaSubtype::Alac => 0x1000d,
            MediaSubtype::Flac => 0x1000e,
            MediaSubtype::Ape => 0x1000f,
            MediaSubtype::Opus => 0x10010,
            MediaSubtype::StartVideo => 0x20000,
            MediaSubtype::H264 => 0x20001,
            MediaSubtype::Mjpg => 0x20002,
            MediaSubtype::Dv => 0x20003,
            MediaSubtype::Mpegts => 0x20004,
            MediaSubtype::H263 => 0x20005,
            MediaSubtype::Mpeg1 => 0x20006,
            MediaSubtype::Mpeg2 => 0x20007,
            MediaSubtype::Mpeg4 => 0x20008,
            MediaSubtype::Xvid => 0x20009,
            MediaSubtype::Vc1 => 0x2000a,
            MediaSubtype::Vp8 => 0x2000b,
            MediaSubtype::Vp9 => 0x2000c,
            MediaSubtype::Bayer => 0x2000d,
            MediaSubtype::H265 => 0x2000e,
            MediaSubtype::StartImage => 0x30000,
            MediaSubtype::Jpeg => 0x30001,
            MediaSubtype::StartBinary => 0x40000,
            MediaSubtype::StartStream => 0x50000,
            MediaSubtype::Midi => 0x50001,
            MediaSubtype::StartApplication => 0x60000,
            MediaSubtype::Control => 0x60001,
        }
    }

    /// Value for a numeric code; unknown codes are rejected.
    pub fn from_u32(v: u32) -> (r: Option<MediaSubtype>)
        ensures
            r == spec_mediasubtype_from(v),
    {
        if v == 0 {
            Option::Some(MediaSubtype::Unknown)
        } else if v == 1 {
            Option::Some(MediaSubtype::Raw)
        } else if v == 2 {
            Option::Some(MediaSubtype::Dsp)
        } else if v == 3 {
            Option::Some(MediaSubtype::Iec958)
        } else if v == 4 {
            Option::Some(MediaSubtype::Dsd)
        } else if v == 0x10000 {
            Option::Some(MediaSubtype::StartAudio)
        } else if v == 0x10001 {
            Option::Some(MediaSubtype::Mp3)
        } else if v == 0x10002 {
            Option::Some(MediaSubtype::Aac)
        } else if v == 0x10003 {
            Option::Some(MediaSubtype::Vorbis)
        } else if v == 0x10004 {
            Option::Some(MediaSubtype::Wma)
        } else if v == 0x10005 {
            Option::Some(MediaSubtype::Ra)
        } else if v == 0x10006 {
            Option::Some(MediaSubtype::Sbc)
        } else if v == 0x10007 {
            Option::Some(MediaSubtype::Adpcm)
        } else if v == 0x10008 {
            Option::Some(MediaSubtype::G723)
        } else if v == 0x10009 {
            Option::Some(MediaSubtype::G726)
        } else if v == 0x1000a {
            Option::Some(MediaSubtype::G729)
        } else if v == 0x1000b {
            Option::Some(MediaSubtype::Amr)
        } else if v == 0x1000c {
            Option::Some(MediaSubtype::Gsm)
        } else if v == 0x1000d {
            Option::Some(MediaSubtype::Alac)
        } else if v == 0x1000e {
            Option::Some(MediaSubtype::Flac)
        } else if v == 0x1000f {
            Option::Some(MediaSubtype::Ape)
        } else if v == 0x10010 {
            Option::Some(MediaSubtype::Opus)
        } else if v == 0x20000 {
            Option::Some(MediaSubtype::StartVideo)
        } else if v == 0x20001 {
            Option::Some(MediaSubtype::H264)
        } else if v == 0x20002 {
            Option::Some(MediaSubtype::Mjpg)
        } else if v == 0x20003 {
            Option::Some(MediaSubtype::Dv)
        } else if v == 0x20004 {
            Option::Some(MediaSubtype::Mpegts)
        } else if v == 0x20005 {
            Option::Some(MediaSubtype::H263)
        } else if v == 0x20006 {
            Option::Some(MediaSubtype::Mpeg1)
        } else if v == 0x20007 {
            Option::Some(MediaSubtype::Mpeg2)
        } else if v == 0x20008 {
            Option::Some(MediaSubtype::Mpeg4)
        } else if v == 0x20009 {
            Option::Some(MediaSubtype::Xvid)
        } else if v == 0x2000a {
            Option::Some(MediaSubtype::Vc1)
        } else if v == 0x2000b {
            Option::Some(MediaSubtype::Vp8)
        } else if v == 0x2000c {
            Option::Some(MediaSubtype::Vp9)
        } else if v == 0x2000d {
            Option::Some(MediaSubtype::Bayer)
        } else if v == 0x2000e {
            Option::Some(MediaSubtype::H265)
        } else if v == 0x30000 {
            Option::Some(MediaSubtype::StartImage)
        } else if v == 0x30001 {
            Option::Some(MediaSubtype::Jpeg)
        } else if v == 0x40000 {
            Option::Some(MediaSubtype::StartBinary)
        } else if v == 0x50000 {
            Option::Some(MediaSubtype::StartStream)
        } else if v == 0x50001 {
            Option::Some(MediaSubtype::Midi)
        } else if v == 0x60000 {
            Option::Some(MediaSubtype::StartApplication)
        } else if v == 0x60001 {
            Option::Some(MediaSubtype::Control)
        } else {
            Option::None
        }
    }
}

/// Round trip of the `MediaSubtype` codes.
pub proof fn lemma_mediasubtype_code_round_trip(t: MediaSubtype)
    ensures
        spec_mediasubtype_from(mediasubtype_code(t)) == Option::Some(t),
{
}
/// Keys of a Format object.
#[derive(Clone, Copy, Debug, PartialEq, Eq, Structural)]
pub enum Format {
    Start,
    MediaType,
    MediaSubtype,
    StartAudio,
    AudioFormat,
    AudioFlags,
    AudioRate,
    AudioChannels,
    AudioPosition,
    AudioIec958Codec,
    AudioBitorder,
    AudioInterleave,
    AudioBitrate,
    AudioBlockAlign,
    AudioAacStreamFormat,
    AudioWmaProfile,
    AudioAmrBandMode,
    StartVideo,
    VideoFormat,
    VideoModifier,
    VideoSize,
    VideoFramerate,
    VideoMaxFramerate,
    VideoViews,
    VideoInterlaceMode,
    VideoPixelAspectRatio,
    VideoMultiviewMode,
    VideoMultiviewFlags,
    VideoChromaSite,
    VideoColorRange,
    VideoColorMatrix,
    VideoTransferFunction,
    VideoColorPrimaries,
    VideoProfile,
    VideoLevel,
    VideoH264StreamFormat,
    VideoH264Alignment,
    VideoH265StreamFormat,
    VideoH265Alignment,
    StartImage,
    StartBinary,
    StartStream,
    StartApplication,
    ControlTypes,
}

/// The stable numeric code of each `Format` value.
pub open spec fn format_code(t: Format) -> u32 {
    match t {
        Format::Start => 0,
        Format::MediaType => 1,
        Format::MediaSubtype => 2,
        Format::StartAudio => 0x10000,
        Format::AudioFormat => 0x10001,
        Format::AudioFlags => 0x10002,
        Format::AudioRate => 0x10003,
        Format::AudioChannels => 0x10004,
        Format::AudioPosition => 0x10005,
        Format::AudioIec958Codec => 0x10006,
        Format::AudioBitorder => 0x10007,
        Format::AudioInterleave => 0x10008,
        Format::AudioBitrate => 0x10009,
        Format::AudioBlockAlign => 0x1000a,
        Format::AudioAacStreamFormat => 0x1000b,
        Format::AudioWmaProfile => 0x1000c,
        Format::AudioAmrBandMode => 0x1000d,
        Format::StartVideo => 0x20000,
        Format::VideoFormat => 0x20001,
        Format::VideoModifier => 0x20002,
        Format::VideoSize => 0x20003,
        Format::VideoFramerate => 0x20004,
        Format::VideoMaxFramerate => 0x20005,
        Format::VideoViews => 0x20006,
        Format::VideoInterlaceMode => 0x20007,
        Format::VideoPixelAspectRatio => 0x20008,
        Format::VideoMultiviewMode => 0x20009,
        Format::VideoMultiviewFlags => 0x2000a,
        Format::VideoChromaSite => 0x2000b,
        Format::VideoColorRange => 0x2000c,
        Format::VideoColorMatrix => 0x2000d,
        Format::VideoTransferFunction => 0x2000e,
        Format::VideoColorPrimaries => 0x2000f,
        Format::VideoProfile => 0x20010,
        Format::VideoLevel => 0x20011,
        Format::VideoH264StreamFormat => 0x20012,
        Format::VideoH264Alignment => 0x20013,
        Format::VideoH265StreamFormat => 0x20014,
        Format::VideoH265Alignment => 0x20015,
        Format::StartImage => 0x30000,
        Format::StartBinary => 0x40000,
        Format::StartStream => 0x50000,
        Format::StartApplication => 0x60000,
        Format::ControlTypes => 0x60001,
    }
}

/// The `Format` value that a numeric code stands for, if any.
pub open spec fn spec_format_from(v: u32) -> Option<Format> {
    if v == 0 {
        Option::Some(Format::Start)
    } else if v == 1 {
        Option::Some(Format::MediaType)
    } else if v == 2 {
        Option::Some(Format::MediaSubtype)
    } else if v == 0x10000 {
        Option::Some(Format::StartAudio)
    } else if v == 0x10001 {
        Option::Some(Format::AudioFormat)
    } else if v == 0x10002 {
        Option::Some(Format::AudioFlags)
    } else if v == 0x10003 {
        Option::Some(Format::AudioRate)
    } else if v == 0x10004 {
        Option::Some(Format::AudioChannels)
    } else if v == 0x10005 {
        Option::Some(Format::AudioPosition)
    } else if v == 0x10006 {
        Option::Some(Format::AudioIec958Codec)
    } else if v == 0x10007 {
        Option::Some(Format::AudioBitorder)
    } else if v == 0x10008 {
        Option::Some(Format::AudioInterleave)
    } else if v == 0x10009 {
        Option::Some(Format::AudioBitrate)
    } else if v == 0x1000a {
        Option::Some(Format::AudioBlockAlign)
    } else if v == 0x1000b {
        Option::Some(Format::AudioAacStreamFormat)
    } else if v == 0x1000c {
        Option::Some(Format::AudioWmaProfile)
    } else if v == 0x1000d {
        Option::Some(Format::AudioAmrBandMode)
    } else if v == 0x20000 {
        Option::Some(Format::StartVideo)
    } else if v == 0x20001 {
        Option::Some(Format::VideoFormat)
    } else if v == 0x20002 {
        Option::Some(Format::VideoModifier)
    } else if v == 0x20003 {
        Option::Some(Format::VideoSize)
    } else if v == 0x20004 {
        Option::Some(Format::VideoFramerate)
    } else if v == 0x20005 {
        Option::Some(Format::VideoMaxFramerate)
    } else if v == 0x20006 {
        Option::Some(Format::VideoViews)
    } else if v == 0x20007 {
        Option::Some(Format::VideoInterlaceMode)
    } else if v == 0x20008 {
        Option::Some(Format::VideoPixelAspectRatio)
    } else if v == 0x20009 {
        Option::Some(Format::VideoMultiviewMode)
    } else if v == 0x2000a {
        Option::Some(Format::VideoMultiviewFlags)
    } else if v == 0x2000b {
        Option::Some(Format::VideoChromaSite)
    } else if v == 0x2000c {
        Option::Some(Format::VideoColorRange)
    } else if v == 0x2000d {
        Option::Some(Format::VideoColorMatrix)
    } else if v == 0x2000e {
        Option::Some(Format::VideoTransferFunction)
    } else if v == 0x2000f {
        Option::Some(Format::VideoColorPrimaries)
    } else if v == 0x20010 {
        Option::Some(Format::VideoProfile)
    } else if v == 0x20011 {
        Option::Some(Format::VideoLevel)
    } else if v == 0x20012 {
        Option::Some(Format::VideoH264StreamFormat)
    } else if v == 0x20013 {
        Option::Some(Format::VideoH264Alignment)
    } else if v == 0x20014 {
        Option::Some(Format::VideoH265StreamFormat)
    } else if v == 0x20015 {
        Option::Some(Format::VideoH265Alignment)
    } else if v == 0x30000 {
        Option::Some(Format::StartImage)
    } else if v == 0x40000 {
        Option::Some(Format::StartBinary)
    } else if v == 0x50000 {
        Option::Some(Format::StartStream)
    } else if v == 0x60000 {
        Option::Some(Format::StartApplication)
    } else if v == 0x60001 {
        Option::Some(Format::ControlTypes)
    } else {
        Option::None
    }
}

impl Format {
    /// Numeric code of this value.
    pub fn to_u32(self) -> (r: u32)
        ensures
            r == format_code(self),
    {
        match self {
            Format::Start => 0,
            Format::MediaType => 1,
            Format::MediaSubtype => 2,
            Format::StartAudio => 0x10000,
            Format::AudioFormat => 0x10001,
            Format::AudioFlags => 0x10002,
            Format::AudioRate => 0x10003,
            Format::AudioChannels => 0x10004,
            Format::AudioPosition => 0x10005,
            Format::AudioIec958Codec => 0x10006,
            Format::AudioBitorder => 0x10007,
            Format::AudioInterleave => 0x10008,
            Format::AudioBitrate => 0x10009,
            Format::AudioBlockAlign => 0x1000a,
            Format::AudioAacStreamFormat => 0x1000b,
            Format::AudioWmaProfile => 0x1000c,
            Format::AudioAmrBandMode => 0x1000d,
            Format::StartVideo => 0x20000,
            Format::VideoFormat => 0x20001,
            Format::VideoModifier => 0x20002,
            Format::VideoSize => 0x20003,
            Format::VideoFramerate => 0x20004,
            Format::VideoMaxFramerate => 0x20005,
            Format::VideoViews => 0x20006,
            Format::VideoInterlaceMode => 0x20007,
            Format::VideoPixelAspectRatio => 0x20008,
            Format::VideoMultiviewMode => 0x20009,
            Format::VideoMultiviewFlags => 0x2000a,
            Format::VideoChromaSite => 0x2000b,
            Format::VideoColorRange => 0x2000c,
            Format::VideoColorMatrix => 0x2000d,
            Format::VideoTransferFunction => 0x2000e,
            Format::VideoColorPrimaries => 0x2000f,
            Format::VideoProfile => 0x20010,
            Format::VideoLevel => 0x20011,
            Format::VideoH264StreamFormat => 0x20012,
            Format::VideoH264Alignment => 0x20013,
            Format::VideoH265StreamFormat => 0x20014,
            Format::VideoH265Alignment => 0x20015,
            Format::StartImage => 0x30000,
            Format::StartBinary => 0x40000,
            Format::StartStream => 0x50000,
            Format::StartApplication => 0x60000,
            Format::ControlTypes => 0x60001,
        }
    }

    /// Value for a numeric code; unknown codes are rejected.
    pub fn from_u32(v: u32) -> (r: Option<Format>)
        ensures
            r == spec_format_from(v),
    {
        if v == 0 {
            Option::Some(Format::Start)
        } else if v == 1 {
            Option::Some(Format::MediaType)
        } else if v == 2 {
            Option::Some(Format::MediaSubtype)
        } else if v == 0x10000 {
            Option::Some(Format::StartAudio)
        } else if v == 0x10001 {
            Option::Some(Format::AudioFormat)
        } else if v == 0x10002 {
            Option::Some(Format::AudioFlags)
        } else if v == 0x10003 {
            Option::Some(Format::AudioRate)
        } else if v == 0x10004 {
            Option::Some(Format::AudioChannels)
        } else if v == 0x10005 {
            Option::Some(Format::AudioPosition)
        } else if v == 0x10006 {
            Option::Some(Format::AudioIec958Codec)
        } else if v == 0x10007 {
            Option::Some(Format::AudioBitorder)
        } else if v == 0x10008 {
            Option::Some(Format::AudioInterleave)
        } else if v == 0x10009 {
            Option::Some(Format::AudioBitrate)
        } else if v == 0x1000a {
            Option::Some(Format::AudioBlockAlign)
        } else if v == 0x1000b {
            Option::Some(Format::AudioAacStreamFormat)
        } else if v == 0x1000c {
            Option::Some(Format::AudioWmaProfile)
        } else if v == 0x1000d {
            Option::Some(Format::AudioAmrBandMode)
        } else if v == 0x20000 {
            Option::Some(Format::StartVideo)
        } else if v == 0x20001 {
            Option::Some(Format::VideoFormat)
        } else if v == 0x20002 {
            Option::Some(Format::VideoModifier)
        } else if v == 0x20003 {
            Option::Some(Format::VideoSize)
        } else if v == 0x20004 {
            Option::Some(Format::VideoFramerate)
        } else if v == 0x20005 {
            Option::Some(Format::VideoMaxFramerate)
        } else if v == 0x20006 {
            Option::Some(Format::VideoViews)
        } else if v == 0x20007 {
            Option::Some(Format::VideoInterlaceMode)
        } else if v == 0x20008 {
            Option::Some(Format::VideoPixelAspectRatio)
        } else if v == 0x20009 {
            Option::Some(Format::VideoMultiviewMode)
        } else if v == 0x2000a {
            Option::Some(Format::VideoMultiviewFlags)
        } else if v == 0x2000b {
            Option::Some(Format::VideoChromaSite)
        } else if v == 0x2000c {
            Option::Some(Format::VideoColorRange)
        } else if v == 0x2000d {
            Option::Some(Format::VideoColorMatrix)
        } else if v == 0x2000e {
            Option::Some(Format::VideoTransferFunction)
        } else if v == 0x2000f {
            Option::Some(Format::VideoColorPrimaries)
        } else if v == 0x20010 {
            Option::Some(Format::VideoProfile)
        } else if v == 0x20011 {
            Option::Some(Format::VideoLevel)
        } else if v == 0x20012 {
            Option::Some(Format::VideoH264StreamFormat)
        } else if v == 0x20013 {
            Option::Some(Format::VideoH264Alignment)
        } else if v == 0x20014 {
            Option::Some(Format::VideoH265StreamFormat)
        } else if v == 0x20015 {
            Option::Some(Format::VideoH265Alignment)
        } else if v == 0x30000 {
            Option::Some(Format::StartImage)
        } else if v == 0x40000 {
            Option::Some(Format::StartBinary)
        } else if v == 0x50000 {
            Option::Some(Format::StartStream)
        } else if v == 0x60000 {
            Option::Some(Format::StartApplication)
        } else if v == 0x60001 {
            Option::Some(Format::ControlTypes)
        } else {
            Option::None
        }
    }
}

/// Round trip of the `Format` codes.
pub proof fn lemma_format_code_round_trip(t: Format)
    ensures
        spec_format_from(format_code(t)) == Option::Some(t),
{
}

impl ParamObject for Format {
    fn object_type() -> ObjectType {
        ObjectType::Format
    }
}

} // verus!

use vstd::prelude::*;

verus! {

/// Rational timebase for media timestamps; RTMP uses milliseconds, 1/1000.
#[derive(Clone, Copy, Debug, PartialEq, Eq, Structural)]
pub struct Fraction {
    pub numerator: u32,
    pub denominator: u32,
}

/// The RTMP timebase: milliseconds.
pub open spec fn spec_rtmp_timebase() -> Fraction {
    Fraction { numerator: 1u32, denominator: 1000u32 }
}

/// Builds the millisecond timebase every RTMP substream uses.
pub fn rtmp_timebase() -> (f: Fraction)
    ensures
        f == spec_rtmp_timebase(),
{
    Fraction { numerator: 1, denominator: 1000 }
}

#[derive(Clone, Copy, Debug, PartialEq, Eq, Structural)]
pub enum SoundType {
    Mono,
    Stereo,
}

/// Decodability tag of a frame: `Independent` frames are self-decodable
/// keyframes; `Backwards` frames depend on one or more earlier frames.
#[derive(Clone, Copy, Debug, PartialEq, Eq, Structural)]
pub enum FrameDependency {
    Independent,
    Backwards,
}

/// Media timestamp: pts, optional dts, and the timebase both are counted in.
#[derive(Clone, Copy, Debug, PartialEq, Eq)]
pub struct MediaTime {
    pub pts: u64,
    pub dts: Option<u64>,
    pub timebase: Fraction,
}

#[derive(Clone, Copy, Debug, PartialEq, Eq)]
pub struct AudioCodecInfo {
    pub sample_rate: u32,
    pub sample_bpp: u32,
    pub sound_type: SoundType,
}

/// H.264 codec parameters captured from the wire: profile/level bytes and the
/// raw SPS and PPS NAL units.
#[derive(Debug)]
pub struct VideoCodecInfo {
    pub width: u32,
    pub height: u32,
    pub profile_indication: u8,
    pub profile_compatibility: u8,
    pub level_indication: u8,
    pub sps: Vec<u8>,
    pub pps: Vec<u8>,
}

#[derive(Debug)]
pub enum CodecTypeInfo {
    Video(VideoCodecInfo),
    Audio(AudioCodecInfo),
}

#[derive(Debug)]
pub struct CodecInfo {
    pub properties: CodecTypeInfo,
}

/// Immutable stream descriptor: id 0 is video, id 1 is audio.
pub struct Stream {
    pub id: u32,
    pub codec: CodecInfo,
    pub timebase: Fraction,
}

/// The indivisible output unit of the ingest pipeline.
pub struct Frame {
    pub time: MediaTime,
    pub dependency: FrameDependency,
    pub buffer: Vec<u8>,
    pub stream: Stream,
}

/// Mathematical value of a `VideoCodecInfo`.
pub struct VideoCodecView {
    pub width: u32,
    pub height: u32,
    pub profile_indication: u8,
    pub profile_compatibility: u8,
    pub level_indication: u8,
    pub sps: Seq<u8>,
    pub pps: Seq<u8>,
}

pub enum CodecView {
    Video(VideoCodecView),
    Audio(AudioCodecInfo),
}

pub struct StreamView {
    pub id: u32,
    pub codec: CodecView,
    pub timebase: Fraction,
}

/// Mathematical value of a `Frame`.
pub struct FrameView {
    pub time: MediaTime,
    pub dependency: FrameDependency,
    pub buffer: Seq<u8>,
    pub stream: StreamView,
}

impl View for VideoCodecInfo {
    type V = VideoCodecView;

    open spec fn view(&self) -> VideoCodecView {
        VideoCodecView {
            width: self.width,
            height: self.height,
            profile_indication: self.profile_indication,
            profile_compatibility: self.profile_compatibility,
            level_indication: self.level_indication,
            sps: self.sps@,
            pps: self.pps@,
        }
    }
}

impl View for CodecInfo {
    type V = CodecView;

    open spec fn view(&self) -> CodecView {
        match self.properties {
            CodecTypeInfo::Video(v) => CodecView::Video(v@),
            CodecTypeInfo::Audio(a) => CodecView::Audio(a),
        }
    }
}

impl View for Stream {
    type V = StreamView;

    open spec fn view(&self) -> StreamView {
        StreamView { id: self.id, codec: self.codec@, timebase: self.timebase }
    }
}

impl View for Frame {
    type V = FrameView;

    open spec fn view(&self) -> FrameView {
        FrameView {
            time: self.time,
            dependency: self.dependency,
            buffer: self.buffer@,
            stream: self.stream@,
        }
    }
}

/// Copies a byte vector element by element.
pub fn clone_bytes(v: &Vec<u8>) -> (r: Vec<u8>)
    ensures
        r@ == v@,
{
    let mut r: Vec<u8> = Vec::new();
    let mut i: usize = 0;
    while i < v.len()
        invariant
            i <= v.len(),
            r@ == v@.subrange(0, i as int),
        decreases v.len() - i,
    {
        r.push(v[i]);
        i = i + 1;
    }
    proof {
        assert(r@ =~= v@);
    }
    r
}

impl Clone for CodecInfo {
    fn clone(&self) -> (r: Self)
        ensures
            r@ == self@,
    {
        match &self.properties {
            CodecTypeInfo::Video(v) => CodecInfo {
                properties: CodecTypeInfo::Video(
                    VideoCodecInfo {
                        width: v.width,
                        height: v.height,
                        profile_indication: v.profile_indication,
                        profile_compatibility: v.profile_compatibility,
                        level_indication: v.level_indication,
                        sps: clone_bytes(&v.sps),
                        pps: clone_bytes(&v.pps),
                    },
                ),
            },
            CodecTypeInfo::Audio(a) => CodecInfo { properties: CodecTypeInfo::Audio(*a) },
        }
    }
}

impl Clone for Stream {
    fn clone(&self) -> (r: Self)
        ensures
            r@ == self@,
    {
        Stream { id: self.id, codec: self.codec.clone(), timebase: self.timebase }
    }
}

impl Clone for Frame {
    fn clone(&self) -> (r: Self)
        ensures
            r@ == self@,
    {
        Frame {
            time: self.time,
            dependency: self.dependency,
            buffer: clone_bytes(&self.buffer),
            stream: self.stream.clone(),
        }
    }
}

/// True of frames that belong to the video substream.
pub open spec fn is_video_frame(f: FrameView) -> bool {
    f.stream.id == 0
}

/// Error kinds of the ingest pipeline.
#[derive(Clone, Copy, Debug, PartialEq, Eq, Structural)]
pub enum IngestError {
    IoClosed,
    ProtocolViolation,
    FlvParse,
    UnsupportedCodec,
    NeedMoreData,
    BindFailed,
}

} // verus!

use vstd::prelude::*;

use std::collections::VecDeque;

use crate::avc::{
    get_codec_from_mp4, get_codec_from_nalu, get_audio_codec_info, spec_audio_codec,
    spec_codec_from_nalu, spec_codec_from_record,
};
use crate::flv::{
    parse_audio_tag, parse_video_tag, spec_audio_header, spec_video_tag, AvcPacketType,
};
use crate::media::{
    is_video_frame, rtmp_timebase, spec_rtmp_timebase, AudioCodecInfo, CodecInfo, CodecTypeInfo,
    CodecView, Frame, FrameDependency, FrameView, IngestError, MediaTime, Stream, StreamView,
    VideoCodecView,
};
use crate::queue::{spec_first_video_independent, spec_frames_view};

use rml_rtmp::handshake::HandshakeProcessResult as HsStep;

verus! {

// ---------------------------------------------------------------------------
// Trusted surface over rml_rtmp
// ---------------------------------------------------------------------------
#[verifier::external_type_specification]
#[verifier::external_body]
pub struct ExHandshake(rml_rtmp::handshake::Handshake);

/// An application event of the RTMP engine, reduced to plain values.
pub enum SessionEvent {
    Metadata { video_width: Option<u32>, video_height: Option<u32>, audio_sample_rate: Option<u32> },
    Video { data: Vec<u8>, timestamp: u32 },
    Audio { data: Vec<u8>, timestamp: u32 },
    ConnectionRequested { request_id: u32 },
    PublishRequested { request_id: u32, app_name: String, stream_key: String },
    Other,
}

/// What the driver asks of the engine's owner in response to an event:
/// carry on, or accept the outstanding connect/publish request.
#[derive(Clone, Copy, Debug, PartialEq, Eq, Structural)]
pub enum SessionAction {
    Continue,
    AcceptRequest(u32),
}

/// One step of the RTMP handshake: bytes to send back, and on completion the
/// left-over bytes that already belong to the chunk stream.
pub enum HandshakeStep {
    InProgress(Vec<u8>),
    Completed(Vec<u8>, Vec<u8>),
}

/// Relies on rml_rtmp's `Handshake::new` with the server peer type.
#[verifier::external_body]
fn handshake_new() -> (h: rml_rtmp::handshake::Handshake) {
    rml_rtmp::handshake::Handshake::new(rml_rtmp::handshake::PeerType::Server)
}

/// Relies on rml_rtmp's `Handshake::process_bytes`: absorbs client handshake
/// bytes and yields the server's response, telling completion apart from
/// progress.  Nothing is assumed of the byte contents.
#[verifier::external_body]
fn handshake_process(
    h: &mut rml_rtmp::handshake::Handshake,
    data: &Vec<u8>,
) -> (r: Result<HandshakeStep, IngestError>)
{
    match h.process_bytes(&data[..]) {
        Ok(HsStep::InProgress { response_bytes }) => Ok(HandshakeStep::InProgress(response_bytes)),
        Ok(HsStep::Completed { response_bytes, remaining_bytes }) => Ok(HandshakeStep::Completed(response_bytes, remaining_bytes)),
        Err(_) => Err(IngestError::ProtocolViolation),
    }
}

// ---------------------------------------------------------------------------
// Handshake driver
// ---------------------------------------------------------------------------
/// Server side of the three-phase RTMP handshake; until it completes no
/// application event is raised.
pub struct RtmpHandshake {
    pub handshake: rml_rtmp::handshake::Handshake,
    pub done: bool,
}

impl RtmpHandshake {
    /// Starts a server handshake.
    pub fn new() -> (h: RtmpHandshake)
        ensures
            !h.done,
    {
        RtmpHandshake { handshake: handshake_new(), done: false }
    }

    /// Absorbs client bytes; `Completed` carries the response to write and
    /// the left-over bytes for the session engine.  Errors are fatal.
    pub fn process_bytes(&mut self, data: &Vec<u8>) -> (r: Result<HandshakeStep, IngestError>)
        requires
            !old(self).done,
        ensures
            match r {
                Ok(step) => final(self).done == (step matches HandshakeStep::Completed(_, _)),
                Err(e) => e == IngestError::ProtocolViolation && !final(self).done,
            },
    {
        match handshake_process(&mut self.handshake, data) {
            Ok(HandshakeStep::InProgress(response)) => Ok(HandshakeStep::InProgress(response)),
            Ok(HandshakeStep::Completed(response, remaining)) => {
                self.done = true;
                Ok(HandshakeStep::Completed(response, remaining))
            },
            Err(_) => Err(IngestError::ProtocolViolation),
        }
    }
}

// ---------------------------------------------------------------------------
// Frame assembler and pipeline driver
// ---------------------------------------------------------------------------
/// Driver stage; transitions only move forward, and any fatal error jumps to
/// `Closed`.
#[derive(Clone, Copy, Debug, PartialEq, Eq, Structural)]
pub enum DriverState {
    Connecting,
    Handshaking,
    AwaitingMetadata,
    AwaitingDescriptors,
    Streaming,
    Closed,
}

/// Order of the driver stages.
pub open spec fn spec_state_order(s: DriverState) -> int {
    match s {
        DriverState::Connecting => 0,
        DriverState::Handshaking => 1,
        DriverState::AwaitingMetadata => 2,
        DriverState::AwaitingDescriptors => 3,
        DriverState::Streaming => 4,
        DriverState::Closed => 5,
    }
}

/// Millisecond delta between two RTMP timestamps, clamped at zero: an
/// earlier peer timestamp counts as duplicate timing, not as a wrap.
pub open spec fn spec_delta(prev: u32, now: u32) -> int {
    if now >= prev {
        now - prev
    } else {
        0
    }
}

/// The substream clock after a payload at `now`: the first payload sets the
/// reference without advancing, later ones add the clamped delta, saturating
/// at the top of the counter.
pub open spec fn spec_advance(time: u64, prev: Option<u32>, now: u32) -> int {
    match prev {
        None => time as int,
        Some(p) => if time + spec_delta(p, now) <= u64::MAX {
            time + spec_delta(p, now)
        } else {
            u64::MAX as int
        },
    }
}

/// What a video payload does to the assembler.
pub enum VideoOutcome {
    /// Malformed tag or unsupported codec: the session dies.
    Fatal(IngestError),
    /// Silently discarded: end-of-sequence, a payload before SPS/PPS are
    /// known, or a dependent frame before the first keyframe.  The clock
    /// does not move.
    DropQuiet,
    /// The payload supplied the codec parameters: the descriptor is
    /// published, no frame is emitted, the clock does not move.
    Assign(VideoCodecView),
    /// A frame is emitted: its pts, dependency and payload bytes.
    Emit(u64, FrameDependency, Seq<u8>),
}

/// The assembler's decision for a video payload, as a function of the
/// descriptor/keyframe state, the clock, and the raw bytes.
pub open spec fn spec_video_outcome(
    has_stream: bool,
    first_emitted: bool,
    time: u64,
    prev: Option<u32>,
    d: Seq<u8>,
    ts: u32,
) -> VideoOutcome {
    match spec_video_tag(d) {
        None => VideoOutcome::Fatal(IngestError::FlvParse),
        Some(t) => if t.codec_id != 7 {
            VideoOutcome::Fatal(IngestError::UnsupportedCodec)
        } else if t.packet_type == AvcPacketType::EndOfSequence {
            VideoOutcome::DropQuiet
        } else if !has_stream {
            if t.packet_type == AvcPacketType::SequenceHeader {
                match spec_codec_from_record(t.avc_data) {
                    None => VideoOutcome::Fatal(IngestError::FlvParse),
                    Some(v) => VideoOutcome::Assign(v),
                }
            } else {
                match spec_codec_from_nalu(t.avc_data) {
                    Err(IngestError::NeedMoreData) => VideoOutcome::DropQuiet,
                    Err(e) => VideoOutcome::Fatal(e),
                    Ok(v) => VideoOutcome::Assign(v),
                }
            }
        } else if !first_emitted && t.frame_type != 1 {
            VideoOutcome::DropQuiet
        } else {
            VideoOutcome::Emit(
                spec_advance(time, prev, ts) as u64,
                if t.frame_type == 1 {
                    FrameDependency::Independent
                } else {
                    FrameDependency::Backwards
                },
                t.avc_data,
            )
        },
    }
}

/// What an audio payload does to the assembler.
pub enum AudioOutcome {
    Fatal(IngestError),
    /// The payload supplied the codec parameters: descriptor published, no
    /// frame, clock untouched.
    Assign(AudioCodecInfo),
    /// A frame is emitted with the whole tag as payload.
    Emit(u64, Seq<u8>),
}

/// The assembler's decision for an audio payload.
pub open spec fn spec_audio_outcome(
    has_stream: bool,
    time: u64,
    prev: Option<u32>,
    d: Seq<u8>,
    ts: u32,
) -> AudioOutcome {
    match spec_audio_header(d) {
        None => AudioOutcome::Fatal(IngestError::FlvParse),
        Some(h) => if !has_stream {
            match spec_audio_codec(h) {
                Err(e) => AudioOutcome::Fatal(e),
                Ok(info) => AudioOutcome::Assign(info),
            }
        } else {
            AudioOutcome::Emit(spec_advance(time, prev, ts) as u64, d)
        },
    }
}

/// A video stream descriptor: id 0, millisecond timebase, H.264 parameters.
pub open spec fn spec_video_stream_wf(s: StreamView) -> bool {
    s.id == 0 && s.timebase == spec_rtmp_timebase() && s.codec is Video
}

/// An audio stream descriptor: id 1, millisecond timebase, AAC parameters.
pub open spec fn spec_audio_stream_wf(s: StreamView) -> bool {
    s.id == 1 && s.timebase == spec_rtmp_timebase() && s.codec is Audio
}

/// Appending one frame to the emission history extends the untaken backlog
/// suffix by exactly that frame.
proof fn lemma_backlog_extend(
    h0: Seq<FrameView>,
    fv: FrameView,
    frames0: Seq<Frame>,
    frames1: Seq<Frame>,
    fr: Frame,
    t: int,
)
    requires
        0 <= t <= h0.len(),
        spec_frames_view(frames0) == h0.subrange(t, h0.len() as int),
        frames1 == frames0.push(fr),
        fr@ == fv,
    ensures
        spec_frames_view(frames1) == h0.push(fv).subrange(t, h0.push(fv).len() as int),
{
    let h1 = h0.push(fv);
    assert(h0.subrange(t, h0.len() as int).len() == h0.len() - t);
    assert(spec_frames_view(frames0).len() == frames0.len());
    assert forall|i: int|
        0 <= i < frames1.len() implies spec_frames_view(frames1)[i] == h1.subrange(
        t,
        h1.len() as int,
    )[i] by {
        assert(spec_frames_view(frames1)[i] == frames1[i]@);
        if i < frames1.len() - 1 {
            assert(frames1[i] == frames0[i]);
            assert(spec_frames_view(frames0)[i] == frames0[i]@);
            assert(spec_frames_view(frames0)[i] == h0.subrange(t, h0.len() as int)[i]);
        } else {
            assert(frames1[i] == fr);
        }
    }
    assert(spec_frames_view(frames1) =~= h1.subrange(t, h1.len() as int));
}

/// The ordering and labelling facts of the emission history survive the
/// append of one frame that sits at its substream's (possibly advanced)
/// clock: pts stay monotone per substream and below the clocks, timestamps
/// keep the millisecond timebase with no dts, stream ids stay 0 or 1, and
/// the first video frame stays independently decodable.
proof fn lemma_history_extend(
    h0: Seq<FrameView>,
    fv: FrameView,
    vt0: u64,
    at0: u64,
    vt1: u64,
    at1: u64,
)
    requires
        forall|i: int|
            0 <= i < h0.len() ==> (#[trigger] h0[i]).time.dts is None && h0[i].time.timebase
                == spec_rtmp_timebase(),
        forall|i: int|
            0 <= i < h0.len() && (#[trigger] h0[i]).stream.id == 0 ==> h0[i].time.pts <= vt0,
        forall|i: int|
            0 <= i < h0.len() && (#[trigger] h0[i]).stream.id == 1 ==> h0[i].time.pts <= at0,
        forall|i: int, j: int|
            0 <= i <= j < h0.len() && (#[trigger] h0[i]).stream.id == (#[trigger] h0[j]).stream.id
                ==> h0[i].time.pts <= h0[j].time.pts,
        spec_first_video_independent(h0),
        forall|i: int| 0 <= i < h0.len() ==> (#[trigger] h0[i]).stream.id == 0 || h0[i].stream.id
            == 1,
        fv.stream.id == 0 || fv.stream.id == 1,
        fv.time.dts is None && fv.time.timebase == spec_rtmp_timebase(),
        vt1 >= vt0,
        at1 >= at0,
        fv.stream.id == 0 ==> fv.time.pts == vt1,
        fv.stream.id == 1 ==> fv.time.pts == at1,
        (fv.stream.id == 0 && !(exists|w: int|
            0 <= w < h0.len() && (#[trigger] h0[w]).stream.id == 0)) ==> fv.dependency
            == FrameDependency::Independent,
    ensures
        forall|i: int|
            0 <= i < h0.push(fv).len() ==> (#[trigger] h0.push(fv)[i]).time.dts is None && h0.push(
                fv,
            )[i].time.timebase == spec_rtmp_timebase(),
        forall|i: int|
            0 <= i < h0.push(fv).len() && (#[trigger] h0.push(fv)[i]).stream.id == 0 ==> h0.push(
                fv,
            )[i].time.pts <= vt1,
        forall|i: int|
            0 <= i < h0.push(fv).len() && (#[trigger] h0.push(fv)[i]).stream.id == 1 ==> h0.push(
                fv,
            )[i].time.pts <= at1,
        forall|i: int, j: int|
            0 <= i <= j < h0.push(fv).len() && (#[trigger] h0.push(fv)[i]).stream.id == (
            #[trigger] h0.push(fv)[j]).stream.id ==> h0.push(fv)[i].time.pts <= h0.push(
                fv,
            )[j].time.pts,
        spec_first_video_independent(h0.push(fv)),
        forall|i: int|
            0 <= i < h0.push(fv).len() ==> (#[trigger] h0.push(fv)[i]).stream.id == 0 || h0.push(
                fv,
            )[i].stream.id == 1,
{
    let h1 = h0.push(fv);
    assert forall|i: int|
        0 <= i < h1.len() implies (#[trigger] h1[i]).time.dts is None && h1[i].time.timebase
        == spec_rtmp_timebase() && (h1[i].stream.id == 0 || h1[i].stream.id == 1) by {
        if i < h0.len() {
            assert(h1[i] == h0[i]);
        }
    }
    assert forall|i: int|
        0 <= i < h1.len() && (#[trigger] h1[i]).stream.id == 0 implies h1[i].time.pts <= vt1 by {
        if i < h0.len() {
            assert(h1[i] == h0[i]);
        }
    }
    assert forall|i: int|
        0 <= i < h1.len() && (#[trigger] h1[i]).stream.id == 1 implies h1[i].time.pts <= at1 by {
        if i < h0.len() {
            assert(h1[i] == h0[i]);
        }
    }
    assert forall|i: int, j: int|
        0 <= i <= j < h1.len() && (#[trigger] h1[i]).stream.id == (
        #[trigger] h1[j]).stream.id implies h1[i].time.pts <= h1[j].time.pts by {
        if j < h0.len() {
            assert(h1[i] == h0[i] && h1[j] == h0[j]);
        } else if i < h0.len() {
            assert(h1[i] == h0[i] && h1[j] == fv);
        }
    }
    assert(spec_first_video_independent(h1)) by {
        assert forall|i: int|
            (0 <= i < h1.len() && is_video_frame(#[trigger] h1[i]) && (forall|j: int|
                0 <= j < i ==> !is_video_frame(#[trigger] h1[j]))) implies h1[i].dependency
            == FrameDependency::Independent by {
            if i < h0.len() {
                assert(forall|j: int| 0 <= j < i ==> h1[j] == h0[j]);
                assert(spec_first_video_independent(h0));
            } else {
                assert(h1[i] == fv);
                assert(forall|j: int| 0 <= j < h0.len() ==> h1[j] == h0[j]);
            }
        }
    }
}

/// RTMP ingest driver: turns the engine's application events — handed in as
/// plain values by the I/O layer that owns the engine — into timed frames,
/// and keeps a backlog of frames not yet taken downstream.  `emitted` is the
/// ghost history of every frame ever built.
pub struct RtmpReadFilter {
    pub state: DriverState,
    pub expect_video: bool,
    pub expect_audio: bool,
    pub video_stream: Option<Stream>,
    pub video_time: u64,
    pub prev_video_time: Option<u32>,
    pub video_frame_emitted: bool,
    pub audio_stream: Option<Stream>,
    pub audio_time: u64,
    pub prev_audio_time: Option<u32>,
    pub publish_app: Option<String>,
    pub publish_key: Option<String>,
    pub frames: VecDeque<Frame>,
    pub emitted: Ghost<Seq<FrameView>>,
    pub taken: Ghost<int>,
}

impl RtmpReadFilter {
    /// Well-formedness: the backlog is the untaken suffix of the emission
    /// history; per substream the emitted pts never decrease and never pass
    /// the clock; the first emitted video frame is a keyframe; frames carry
    /// the published descriptor of their substream; no frame precedes its
    /// descriptor.
    pub open spec fn wf(self) -> bool {
        let h = self.emitted@;
        &&& 0 <= self.taken@ <= h.len()
        &&& spec_frames_view(self.frames@) == h.subrange(self.taken@, h.len() as int)
        &&& (forall|i: int|
            0 <= i < h.len() ==> (#[trigger] h[i]).time.dts is None && h[i].time.timebase
                == spec_rtmp_timebase())
        &&& (forall|i: int|
            0 <= i < h.len() && (#[trigger] h[i]).stream.id == 0 ==> h[i].time.pts
                <= self.video_time)
        &&& (forall|i: int|
            0 <= i < h.len() && (#[trigger] h[i]).stream.id == 1 ==> h[i].time.pts
                <= self.audio_time)
        &&& (forall|i: int, j: int|
            0 <= i <= j < h.len() && (#[trigger] h[i]).stream.id == (#[trigger] h[j]).stream.id
                ==> h[i].time.pts <= h[j].time.pts)
        &&& spec_first_video_independent(h)
        &&& (self.video_frame_emitted <==> exists|i: int|
            0 <= i < h.len() && (#[trigger] h[i]).stream.id == 0)
        &&& (match self.video_stream {
            Some(s) => spec_video_stream_wf(s@) && (forall|i: int|
                0 <= i < h.len() && (#[trigger] h[i]).stream.id == 0 ==> h[i].stream == s@),
            None => !self.video_frame_emitted && self.video_time == 0 && self.prev_video_time
                is None,
        })
        &&& (match self.audio_stream {
            Some(s) => spec_audio_stream_wf(s@) && (forall|i: int|
                0 <= i < h.len() && (#[trigger] h[i]).stream.id == 1 ==> h[i].stream == s@),
            None => self.audio_time == 0 && self.prev_audio_time is None && (forall|i: int|
                0 <= i < h.len() ==> (#[trigger] h[i]).stream.id != 1),
        })
        &&& (forall|i: int|
            0 <= i < h.len() ==> (#[trigger] h[i]).stream.id == 0 || h[i].stream.id == 1)
        &&& (self.state == DriverState::Streaming ==> self.spec_descriptors_ready())
    }

    /// Wraps an already-handshaken RTMP server session; the driver then
    /// awaits the publish metadata.
    pub fn new() -> (s: RtmpReadFilter)
        ensures
            s.wf(),
            s.state == DriverState::AwaitingMetadata,
            s.emitted@ == Seq::<FrameView>::empty(),
            s.frames@.len() == 0,
            s.taken@ == 0,
            s.video_stream is None,
            s.audio_stream is None,
            s.video_time == 0,
            s.audio_time == 0,
            s.prev_video_time is None,
            s.prev_audio_time is None,
            !s.video_frame_emitted,
            !s.expect_video,
            !s.expect_audio,
            s.publish_app is None,
            s.publish_key is None,
    {
        let s = RtmpReadFilter {
            state: DriverState::AwaitingMetadata,
            expect_video: false,
            expect_audio: false,
            video_stream: None,
            video_time: 0,
            prev_video_time: None,
            video_frame_emitted: false,
            audio_stream: None,
            audio_time: 0,
            prev_audio_time: None,
            publish_app: None,
            publish_key: None,
            frames: VecDeque::new(),
            emitted: Ghost(Seq::empty()),
            taken: Ghost(0),
        };
        proof {
            assert(spec_frames_view(s.frames@) =~= s.emitted@.subrange(0, 0));
        }
        s
    }
}

} // verus!

verus! {

impl RtmpReadFilter {
    /// Decodes one video payload.  A malformed tag or non-AVC codec is
    /// fatal; end-of-sequence is discarded; before the descriptor exists the
    /// payload may publish it (sequence header, or in-band SPS/PPS) or is
    /// dropped without advancing the clock; afterwards a frame is emitted
    /// with the clamped-delta clock, a keyframe dependency tag, and the AVC
    /// body as payload — except that dependent frames before the first
    /// keyframe are dropped.
    pub fn add_video_frame(&mut self, data: &Vec<u8>, timestamp: u32) -> (r: Result<
        (),
        IngestError,
    >)
        requires
            old(self).wf(),
        ensures
            final(self).wf(),
            final(self).state == old(self).state,
            final(self).expect_video == old(self).expect_video,
            final(self).expect_audio == old(self).expect_audio,
            final(self).audio_stream == old(self).audio_stream,
            final(self).audio_time == old(self).audio_time,
            final(self).prev_audio_time == old(self).prev_audio_time,
            final(self).taken == old(self).taken,
            old(self).video_stream is Some ==> final(self).video_stream == old(self).video_stream,
            ({
                let o = spec_video_outcome(
                    old(self).video_stream is Some,
                    old(self).video_frame_emitted,
                    old(self).video_time,
                    old(self).prev_video_time,
                    data@,
                    timestamp,
                );
                match o {
                    VideoOutcome::Fatal(e) => r == Err::<(), IngestError>(e) && *final(self)
                        == *old(self),
                    VideoOutcome::DropQuiet => r is Ok && *final(self) == *old(self),
                    VideoOutcome::Assign(v) => r is Ok && final(self).emitted == old(self).emitted
                        && final(self).video_time == old(self).video_time && final(self).prev_video_time == old(self).prev_video_time && (final(self).video_stream
                        matches Some(s) && s@ == (StreamView {
                        id: 0,
                        codec: CodecView::Video(v),
                        timebase: spec_rtmp_timebase(),
                    })),
                    VideoOutcome::Emit(pts, dep, payload) => r is Ok && final(self).video_time
                        == pts && final(self).prev_video_time == Some(timestamp) && final(self).video_frame_emitted && final(self).emitted@ == old(self).emitted@.push(
                        FrameView {
                            time: MediaTime {
                                pts,
                                dts: None,
                                timebase: spec_rtmp_timebase(),
                            },
                            dependency: dep,
                            buffer: payload,
                            stream: old(self).video_stream.unwrap()@,
                        },
                    ),
                }
            }),
    {
        let tag = match parse_video_tag(data) {
            Ok(t) => t,
            Err(e) => { return Err(e) },
        };
        if tag.codec_id != 7 {
            return Err(IngestError::UnsupportedCodec);
        }
        if matches!(tag.packet_type, AvcPacketType::EndOfSequence) {
            return Ok(());
        }
        if self.video_stream.is_none() {
            let codec = if matches!(tag.packet_type, AvcPacketType::SequenceHeader) {
                match get_codec_from_mp4(&tag.avc_data) {
                    Ok(c) => c,
                    Err(e) => { return Err(e) },
                }
            } else {
                match get_codec_from_nalu(&tag.avc_data) {
                    Ok(c) => c,
                    Err(IngestError::NeedMoreData) => { return Ok(()) },
                    Err(e) => { return Err(e) },
                }
            };
            self.video_stream = Some(Stream { id: 0, codec, timebase: rtmp_timebase() });
            proof {
                let h = self.emitted@;
                assert forall|i: int| 0 <= i < h.len() implies (#[trigger] h[i]).stream.id != 0 by {
                    if h[i].stream.id == 0 {
                        assert(old(self).video_frame_emitted);
                    }
                }
            }
            return Ok(());
        }
        let is_key = tag.frame_type == 1;
        if !self.video_frame_emitted && !is_key {
            return Ok(());
        }
        let prev = match self.prev_video_time {
            Some(p) => p,
            None => timestamp,
        };
        let delta = crate::rtmp_delta(prev, timestamp);
        let vt = self.video_time;
        let new_time = if vt <= u64::MAX - (delta as u64) {
            vt + (delta as u64)
        } else {
            u64::MAX
        };
        self.video_time = new_time;
        let stream = match &self.video_stream {
            Some(s) => s.clone(),
            None => { return Err(IngestError::NeedMoreData) },
        };
        let frame = Frame {
            time: MediaTime { pts: new_time, dts: None, timebase: rtmp_timebase() },
            dependency: if is_key {
                FrameDependency::Independent
            } else {
                FrameDependency::Backwards
            },
            buffer: tag.avc_data,
            stream,
        };
        let ghost fv = frame@;
        let ghost fr = frame;
        self.frames.push_back(frame);
        proof {
            self.emitted@ = self.emitted@.push(fv);
        }
        self.prev_video_time = Some(timestamp);
        self.video_frame_emitted = true;
        proof {
            let h0 = old(self).emitted@;
            let h1 = self.emitted@;
            let t = self.taken@;
            assert(fv.stream == old(self).video_stream.unwrap()@);
            assert(fv.stream.id == 0);
            assert(0 <= t <= h0.len());
            assert(h1 == h0.push(fv));
            assert(fv.time.pts == self.video_time);
            assert(self.video_time >= old(self).video_time);
            lemma_backlog_extend(h0, fv, old(self).frames@, self.frames@, fr, t);
            lemma_history_extend(
                h0,
                fv,
                old(self).video_time,
                old(self).audio_time,
                self.video_time,
                self.audio_time,
            );
            assert(is_video_frame(h1[h1.len() - 1]));
            assert forall|i: int|
                0 <= i < h1.len() && (#[trigger] h1[i]).stream.id == 0 implies h1[i].stream
                == old(self).video_stream.unwrap()@ by {
                if i < h0.len() {
                    assert(h1[i] == h0[i]);
                }
            }
            if self.audio_stream is Some {
                assert forall|i: int|
                    0 <= i < h1.len() && (#[trigger] h1[i]).stream.id == 1 implies h1[i].stream
                    == self.audio_stream.unwrap()@ by {
                    if i < h0.len() {
                        assert(h1[i] == h0[i]);
                    }
                }
            } else {
                assert forall|i: int| 0 <= i < h1.len() implies (#[trigger] h1[i]).stream.id
                    != 1 by {
                    if i < h0.len() {
                        assert(h1[i] == h0[i]);
                    }
                }
            }
        }
        Ok(())
    }

    /// Decodes one audio payload.  A malformed tag is fatal; a non-AAC
    /// format kills the session with `UnsupportedCodec`; the first AAC tag
    /// publishes the audio descriptor without advancing the clock; afterwards
    /// each tag is emitted whole as an independently decodable frame on the
    /// clamped-delta clock.
    pub fn add_audio_frame(&mut self, data: &Vec<u8>, timestamp: u32) -> (r: Result<
        (),
        IngestError,
    >)
        requires
            old(self).wf(),
        ensures
            final(self).wf(),
            final(self).state == old(self).state,
            final(self).expect_video == old(self).expect_video,
            final(self).expect_audio == old(self).expect_audio,
            final(self).video_stream == old(self).video_stream,
            final(self).video_time == old(self).video_time,
            final(self).prev_video_time == old(self).prev_video_time,
            final(self).video_frame_emitted == old(self).video_frame_emitted,
            final(self).taken == old(self).taken,
            old(self).audio_stream is Some ==> final(self).audio_stream == old(self).audio_stream,
            ({
                let o = spec_audio_outcome(
                    old(self).audio_stream is Some,
                    old(self).audio_time,
                    old(self).prev_audio_time,
                    data@,
                    timestamp,
                );
                match o {
                    AudioOutcome::Fatal(e) => r == Err::<(), IngestError>(e) && *final(self)
                        == *old(self),
                    AudioOutcome::Assign(info) => r is Ok && final(self).emitted == old(self).emitted && final(self).audio_time == old(self).audio_time && final(self).prev_audio_time == old(self).prev_audio_time && (final(self).audio_stream
                        matches Some(s) && s@ == (StreamView {
                        id: 1,
                        codec: CodecView::Audio(info),
                        timebase: spec_rtmp_timebase(),
                    })),
                    AudioOutcome::Emit(pts, payload) => r is Ok && final(self).audio_time == pts
                        && final(self).prev_audio_time == Some(timestamp) && final(self).emitted@
                        == old(self).emitted@.push(
                        FrameView {
                            time: MediaTime {
                                pts,
                                dts: None,
                                timebase: spec_rtmp_timebase(),
                            },
                            dependency: FrameDependency::Independent,
                            buffer: payload,
                            stream: old(self).audio_stream.unwrap()@,
                        },
                    ),
                }
            }),
    {
        let header = match parse_audio_tag(data) {
            Ok(h) => h,
            Err(e) => { return Err(e) },
        };
        if self.audio_stream.is_none() {
            let info = match get_audio_codec_info(header) {
                Ok(i) => i,
                Err(e) => { return Err(e) },
            };
            self.audio_stream = Some(
                Stream {
                    id: 1,
                    codec: CodecInfo { properties: CodecTypeInfo::Audio(info) },
                    timebase: rtmp_timebase(),
                },
            );
            proof {
                let h = self.emitted@;
                assert(forall|i: int| 0 <= i < h.len() ==> (#[trigger] h[i]).stream.id != 1);
                if old(self).video_frame_emitted {
                    let w = choose|w: int| 0 <= w < h.len() && (#[trigger] h[w]).stream.id == 0;
                    assert(h[w].stream.id == 0);
                }
            }
            return Ok(());
        }
        let prev = match self.prev_audio_time {
            Some(p) => p,
            None => timestamp,
        };
        let delta = crate::rtmp_delta(prev, timestamp);
        let at = self.audio_time;
        let new_time = if at <= u64::MAX - (delta as u64) {
            at + (delta as u64)
        } else {
            u64::MAX
        };
        self.audio_time = new_time;
        let stream = match &self.audio_stream {
            Some(s) => s.clone(),
            None => { return Err(IngestError::NeedMoreData) },
        };
        let frame = Frame {
            time: MediaTime { pts: new_time, dts: None, timebase: rtmp_timebase() },
            dependency: FrameDependency::Independent,
            buffer: crate::media::clone_bytes(data),
            stream,
        };
        let ghost fv = frame@;
        let ghost fr = frame;
        self.frames.push_back(frame);
        proof {
            self.emitted@ = self.emitted@.push(fv);
        }
        self.prev_audio_time = Some(timestamp);
        proof {
            let h0 = old(self).emitted@;
            let h1 = self.emitted@;
            let t = self.taken@;
            assert(fv.stream == old(self).audio_stream.unwrap()@);
            assert(fv.stream.id == 1);
            assert(0 <= t <= h0.len());
            assert(h1 == h0.push(fv));
            assert(fv.time.pts == self.audio_time);
            assert(self.audio_time >= old(self).audio_time);
            lemma_backlog_extend(h0, fv, old(self).frames@, self.frames@, fr, t);
            lemma_history_extend(
                h0,
                fv,
                old(self).video_time,
                old(self).audio_time,
                self.video_time,
                self.audio_time,
            );
            if old(self).video_frame_emitted {
                let w = choose|w: int| 0 <= w < h0.len() && (#[trigger] h0[w]).stream.id == 0;
                assert(h1[w] == h0[w]);
            } else {
                assert forall|i: int| 0 <= i < h1.len() implies (#[trigger] h1[i]).stream.id
                    != 0 by {
                    if i < h0.len() {
                        assert(h1[i] == h0[i]);
                    }
                }
            }
            assert forall|i: int|
                0 <= i < h1.len() && (#[trigger] h1[i]).stream.id == 1 implies h1[i].stream
                == old(self).audio_stream.unwrap()@ by {
                if i < h0.len() {
                    assert(h1[i] == h0[i]);
                }
            }
            if self.video_stream is Some {
                assert forall|i: int|
                    0 <= i < h1.len() && (#[trigger] h1[i]).stream.id == 0 implies h1[i].stream
                    == self.video_stream.unwrap()@ by {
                    if i < h0.len() {
                        assert(h1[i] == h0[i]);
                    }
                }
            }
        }
        Ok(())
    }

    /// Both expected substreams have their descriptors.
    pub open spec fn spec_descriptors_ready(self) -> bool {
        (self.expect_video ==> self.video_stream is Some) && (self.expect_audio
            ==> self.audio_stream is Some)
    }

    fn descriptors_ready(&self) -> (b: bool)
        ensures
            b == self.spec_descriptors_ready(),
    {
        (!self.expect_video || self.video_stream.is_some()) && (!self.expect_audio
            || self.audio_stream.is_some())
    }

    /// Moves to `Streaming` once the metadata was seen and every expected
    /// descriptor exists.
    fn maybe_start_streaming(&mut self)
        requires
            old(self).wf(),
        ensures
            final(self).wf(),
            spec_state_order(final(self).state) >= spec_state_order(old(self).state),
            *final(self) == (RtmpReadFilter { state: final(self).state, ..*old(self) }),
            final(self).state == (if old(self).state == DriverState::AwaitingDescriptors && old(
                self,
            ).spec_descriptors_ready() {
                DriverState::Streaming
            } else {
                old(self).state
            }),
    {
        if matches!(self.state, DriverState::AwaitingDescriptors) && self.descriptors_ready() {
            self.state = DriverState::Streaming;
        }
    }

    /// Handles one application event: metadata fixes which substreams are
    /// expected; audio and video payloads run the assembler once the
    /// metadata was seen; a connect or publish request yields the accept
    /// action for the engine's owner to perform.  A fatal error closes the
    /// driver.  The engine itself stays with the unverified I/O layer: it is
    /// not hardened against hostile bytes, so no verified function feeds it.
    #[verifier::rlimit(60)]
    pub fn process_event(&mut self, event: SessionEvent) -> (r: Result<SessionAction, IngestError>)
        requires
            old(self).wf(),
        ensures
            final(self).wf(),
            spec_state_order(final(self).state) >= spec_state_order(old(self).state),
            r is Err ==> final(self).state == DriverState::Closed,
            final(self).taken == old(self).taken,
            final(self).emitted@.len() >= old(self).emitted@.len(),
            final(self).emitted@.subrange(0, old(self).emitted@.len() as int) == old(self).emitted@,
            old(self).video_stream is Some ==> final(self).video_stream == old(self).video_stream,
            old(self).audio_stream is Some ==> final(self).audio_stream == old(self).audio_stream,
            event matches SessionEvent::Metadata { video_width, audio_sample_rate, .. } ==> (old(self).state == DriverState::AwaitingMetadata ==> final(self).expect_video == (video_width
                is Some) && final(self).expect_audio == (audio_sample_rate is Some) && final(self).state == (if final(self).spec_descriptors_ready() {
                DriverState::Streaming
            } else {
                DriverState::AwaitingDescriptors
            })),
            ({
                let live = old(self).state == DriverState::AwaitingDescriptors || old(self).state
                    == DriverState::Streaming;
                ((event matches SessionEvent::Video { .. }) && !live) ==> r is Ok && *final(self)
                    == *old(self)
            }),
            ({
                let live = old(self).state == DriverState::AwaitingDescriptors || old(self).state
                    == DriverState::Streaming;
                ((event matches SessionEvent::Audio { .. }) && !live) ==> r is Ok && *final(self)
                    == *old(self)
            }),
            event matches SessionEvent::Other ==> r == Ok::<SessionAction, IngestError>(
                SessionAction::Continue,
            ) && *final(self) == *old(self),
            event matches SessionEvent::Metadata { .. } ==> (old(self).state
                != DriverState::AwaitingMetadata ==> r is Ok && *final(self) == (RtmpReadFilter {
                state: final(self).state,
                ..*old(self)
            })),
            event matches SessionEvent::Metadata { .. } ==> (old(self).state
                == DriverState::AwaitingMetadata ==> r is Ok && *final(self) == (RtmpReadFilter {
                state: final(self).state,
                expect_video: final(self).expect_video,
                expect_audio: final(self).expect_audio,
                ..*old(self)
            })),
            event matches SessionEvent::ConnectionRequested { request_id } ==> r == Ok::<
                SessionAction,
                IngestError,
            >(SessionAction::AcceptRequest(request_id)) && *final(self) == *old(self),
            event matches SessionEvent::PublishRequested { request_id, app_name, stream_key }
                ==> r == Ok::<SessionAction, IngestError>(SessionAction::AcceptRequest(request_id))
                && *final(self) == (RtmpReadFilter {
                publish_app: Some(app_name),
                publish_key: Some(stream_key),
                ..*old(self)
            }),
            (((event matches SessionEvent::Video { .. }) || (event
                matches SessionEvent::Audio { .. })) && r is Ok && old(self).state
                == DriverState::AwaitingDescriptors) ==> (final(self).state
                == DriverState::Streaming <==> final(self).spec_descriptors_ready()),
            ({
                let live = old(self).state == DriverState::AwaitingDescriptors || old(self).state
                    == DriverState::Streaming;
                event matches SessionEvent::Video { data, timestamp } ==> (live ==> match
                    spec_video_outcome(
                    old(self).video_stream is Some,
                    old(self).video_frame_emitted,
                    old(self).video_time,
                    old(self).prev_video_time,
                    data@,
                    timestamp,
                ) {
                    VideoOutcome::Fatal(e) => r == Err::<SessionAction, IngestError>(e),
                    VideoOutcome::DropQuiet => r is Ok && final(self).emitted == old(self).emitted && final(self).video_time == old(self).video_time,
                    VideoOutcome::Assign(v) => r is Ok && final(self).emitted == old(self).emitted && (final(self).video_stream matches Some(st) && st@ == (StreamView {
                        id: 0,
                        codec: CodecView::Video(v),
                        timebase: spec_rtmp_timebase(),
                    })),
                    VideoOutcome::Emit(pts, dep, payload) => r is Ok && final(self).video_time
                        == pts && final(self).emitted@ == old(self).emitted@.push(
                        FrameView {
                            time: MediaTime { pts, dts: None, timebase: spec_rtmp_timebase() },
                            dependency: dep,
                            buffer: payload,
                            stream: old(self).video_stream.unwrap()@,
                        },
                    ),
                })
            }),
            ({
                let live = old(self).state == DriverState::AwaitingDescriptors || old(self).state
                    == DriverState::Streaming;
                event matches SessionEvent::Audio { data, timestamp } ==> (live ==> match
                    spec_audio_outcome(
                    old(self).audio_stream is Some,
                    old(self).audio_time,
                    old(self).prev_audio_time,
                    data@,
                    timestamp,
                ) {
                    AudioOutcome::Fatal(e) => r == Err::<SessionAction, IngestError>(e),
                    AudioOutcome::Assign(info) => r is Ok && final(self).emitted == old(self).emitted && (final(self).audio_stream matches Some(st) && st@ == (StreamView {
                        id: 1,
                        codec: CodecView::Audio(info),
                        timebase: spec_rtmp_timebase(),
                    })),
                    AudioOutcome::Emit(pts, payload) => r is Ok && final(self).audio_time == pts
                        && final(self).emitted@ == old(self).emitted@.push(
                        FrameView {
                            time: MediaTime { pts, dts: None, timebase: spec_rtmp_timebase() },
                            dependency: FrameDependency::Independent,
                            buffer: payload,
                            stream: old(self).audio_stream.unwrap()@,
                        },
                    ),
                })
            }),
    {
        let ghost h0 = old(self).emitted@;
        match event {
            SessionEvent::Metadata { video_width, audio_sample_rate, .. } => {
                if matches!(self.state, DriverState::AwaitingMetadata) {
                    self.expect_video = video_width.is_some();
                    self.expect_audio = audio_sample_rate.is_some();
                    self.state = DriverState::AwaitingDescriptors;
                }
                self.maybe_start_streaming();
                proof {
                    assert(self.emitted@.subrange(0, h0.len() as int) =~= h0);
                }
                Ok(SessionAction::Continue)
            },
            SessionEvent::Video { data, timestamp } => {
                if matches!(self.state, DriverState::AwaitingDescriptors) || matches!(
                    self.state,
                    DriverState::Streaming,
                ) {
                    match self.add_video_frame(&data, timestamp) {
                        Ok(()) => {},
                        Err(e) => {
                            self.state = DriverState::Closed;
                            proof {
                                assert(self.emitted@.subrange(0, h0.len() as int) =~= h0);
                            }
                            return Err(e);
                        },
                    }
                    self.maybe_start_streaming();
                }
                proof {
                    assert(self.emitted@.subrange(0, h0.len() as int) =~= h0);
                }
                Ok(SessionAction::Continue)
            },
            SessionEvent::Audio { data, timestamp } => {
                if matches!(self.state, DriverState::AwaitingDescriptors) || matches!(
                    self.state,
                    DriverState::Streaming,
                ) {
                    match self.add_audio_frame(&data, timestamp) {
                        Ok(()) => {},
                        Err(e) => {
                            self.state = DriverState::Closed;
                            proof {
                                assert(self.emitted@.subrange(0, h0.len() as int) =~= h0);
                            }
                            return Err(e);
                        },
                    }
                    self.maybe_start_streaming();
                }
                proof {
                    assert(self.emitted@.subrange(0, h0.len() as int) =~= h0);
                }
                Ok(SessionAction::Continue)
            },
            SessionEvent::ConnectionRequested { request_id } => {
                proof {
                    assert(self.emitted@.subrange(0, h0.len() as int) =~= h0);
                }
                Ok(SessionAction::AcceptRequest(request_id))
            },
            SessionEvent::PublishRequested { request_id, app_name, stream_key } => {
                self.publish_app = Some(app_name);
                self.publish_key = Some(stream_key);
                proof {
                    assert(self.emitted@.subrange(0, h0.len() as int) =~= h0);
                }
                Ok(SessionAction::AcceptRequest(request_id))
            },
            SessionEvent::Other => {
                proof {
                    assert(self.emitted@.subrange(0, h0.len() as int) =~= h0);
                }
                Ok(SessionAction::Continue)
            },
        }
    }

    /// Hands out the oldest assembled frame not yet taken downstream.
    pub fn poll_frame(&mut self) -> (r: Option<Frame>)
        requires
            old(self).wf(),
        ensures
            final(self).wf(),
            final(self).emitted == old(self).emitted,
            final(self).state == old(self).state,
            final(self).video_stream == old(self).video_stream,
            final(self).audio_stream == old(self).audio_stream,
            match r {
                Some(f) => old(self).taken@ < old(self).emitted@.len() && f@ == old(self).emitted@[old(self).taken@] && final(self).taken@ == old(self).taken@ + 1,
                None => old(self).taken@ == old(self).emitted@.len() && final(self).taken == old(self).taken && final(self).frames@ == old(self).frames@,
            },
    {
        let ghost t0 = self.taken@;
        let popped = self.frames.pop_front();
        match popped {
            Some(f) => {
                proof {
                    self.taken@ = self.taken@ + 1;
                    let h = self.emitted@;
                    assert(0 <= t0 <= h.len());
                    assert(spec_frames_view(old(self).frames@) == h.subrange(t0, h.len() as int));
                    assert(h.subrange(t0, h.len() as int).len() == h.len() - t0);
                    assert(spec_frames_view(old(self).frames@).len() == old(self).frames@.len());
                    assert(old(self).frames@.len() == h.len() - t0);
                    assert(spec_frames_view(old(self).frames@)[0] == h.subrange(
                        t0,
                        h.len() as int,
                    )[0]);
                    assert(old(self).frames@[0]@ == spec_frames_view(old(self).frames@)[0]);
                    assert(f@ == h[t0]);
                    assert forall|i: int|
                        0 <= i < self.frames@.len() implies spec_frames_view(self.frames@)[i]
                        == self.emitted@.subrange(self.taken@, self.emitted@.len() as int)[i] by {
                        assert(self.frames@[i] == old(self).frames@[i + 1]);
                        assert(spec_frames_view(old(self).frames@)[i + 1] == old(self).frames@[i + 1]@);
                        assert(spec_frames_view(old(self).frames@)[i + 1] == old(self).emitted@.subrange(t0, old(self).emitted@.len() as int)[i + 1]);
                        assert(spec_frames_view(self.frames@)[i] == self.frames@[i]@);
                    }
                    assert(spec_frames_view(self.frames@) =~= self.emitted@.subrange(
                        self.taken@,
                        self.emitted@.len() as int,
                    ));
                }
                Some(f)
            },
            None => {
                proof {
                    let h = self.emitted@;
                    assert(spec_frames_view(old(self).frames@) == h.subrange(t0, h.len() as int));
                    assert(h.subrange(t0, h.len() as int).len() == h.len() - t0);
                    assert(spec_frames_view(old(self).frames@).len() == old(self).frames@.len());
                }
                None
            },
        }
    }
}

/// The driver is in `Streaming` only once every substream the metadata
/// announced has its descriptor published.
pub proof fn lemma_streaming_implies_descriptors_ready(s: RtmpReadFilter)
    requires
        s.wf(),
        s.state == DriverState::Streaming,
    ensures
        s.spec_descriptors_ready(),
{
}

/// Per session and substream, the emitted pts never decrease.
pub proof fn lemma_emitted_pts_monotone(s: RtmpReadFilter, i: int, j: int)
    requires
        s.wf(),
        0 <= i <= j < s.emitted@.len(),
        s.emitted@[i].stream.id == s.emitted@[j].stream.id,
    ensures
        s.emitted@[i].time.pts <= s.emitted@[j].time.pts,
{
}

/// The first video frame a session ever emits is a keyframe.
pub proof fn lemma_first_emitted_video_independent(s: RtmpReadFilter, i: int)
    requires
        s.wf(),
        0 <= i < s.emitted@.len(),
        is_video_frame(s.emitted@[i]),
        forall|j: int| 0 <= j < i ==> !is_video_frame(#[trigger] s.emitted@[j]),
    ensures
        s.emitted@[i].dependency == FrameDependency::Independent,
{
}

/// A frame is emitted only after the descriptor of its substream exists, so
/// the SPS and PPS bytes every emitted video frame points at are the ones
/// captured when the descriptor was published.
pub proof fn lemma_frames_carry_published_descriptor(s: RtmpReadFilter, i: int)
    requires
        s.wf(),
        0 <= i < s.emitted@.len(),
        s.emitted@[i].stream.id == 0,
    ensures
        s.video_stream is Some,
        s.emitted@[i].stream == s.video_stream.unwrap()@,
{
    if s.video_stream is None {
        assert(s.video_frame_emitted);
    }
}

} // verus!

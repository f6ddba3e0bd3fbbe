use streamhead::media::{CodecTypeInfo, FrameDependency, IngestError};
use streamhead::session::{DriverState, RtmpReadFilter, SessionAction, SessionEvent};

fn sps_nal() -> Vec<u8> {
    vec![0x67, 0x42, 0x00, 0x1F, 0xF8, 0x0A, 0x00, 0xB7, 0xFA]
}

fn pps_nal() -> Vec<u8> {
    vec![0x68, 0xCE, 0x38, 0x80]
}

fn record() -> Vec<u8> {
    let mut v = vec![0x01, 0x42, 0x00, 0x1F, 0xFF, 0xE1, 0x00, 0x09];
    v.extend(sps_nal());
    v.push(0x01);
    v.extend(vec![0x00, 0x04]);
    v.extend(pps_nal());
    v
}

fn seq_header_tag() -> Vec<u8> {
    let mut v = vec![0x17, 0x00, 0x00, 0x00, 0x00];
    v.extend(record());
    v
}

fn video_tag(key: bool, payload: &[u8]) -> Vec<u8> {
    let mut v = vec![if key { 0x17 } else { 0x27 }, 0x01, 0x00, 0x00, 0x00];
    v.extend_from_slice(payload);
    v
}

fn end_of_sequence_tag() -> Vec<u8> {
    vec![0x17, 0x02, 0x00, 0x00, 0x00]
}

fn new_filter() -> RtmpReadFilter {
    RtmpReadFilter::new()
}

fn video_metadata() -> SessionEvent {
    SessionEvent::Metadata {
        video_width: Some(1280),
        video_height: Some(720),
        audio_sample_rate: None,
    }
}

fn feed_video(f: &mut RtmpReadFilter, data: Vec<u8>, timestamp: u32) {
    f.process_event(SessionEvent::Video { data, timestamp }).unwrap();
}

#[test]
fn happy_path_video_only() {
    let mut f = new_filter();
    assert_eq!(f.state, DriverState::AwaitingMetadata);
    f.process_event(video_metadata()).unwrap();
    assert_eq!(f.state, DriverState::AwaitingDescriptors);
    feed_video(&mut f, seq_header_tag(), 0);
    assert_eq!(f.state, DriverState::Streaming);
    let stream = f.video_stream.as_ref().expect("video descriptor published");
    assert_eq!(stream.id, 0);
    match &stream.codec.properties {
        CodecTypeInfo::Video(v) => {
            assert_eq!(v.width, 1280);
            assert_eq!(v.height, 720);
            assert_eq!(v.profile_indication, 66);
            assert_eq!(v.profile_compatibility, 0);
            assert_eq!(v.level_indication, 31);
            assert_eq!(v.sps, sps_nal());
            assert_eq!(v.pps, pps_nal());
        }
        CodecTypeInfo::Audio(_) => panic!("expected the video codec"),
    }
    feed_video(&mut f, video_tag(true, &[0x65, 0x11]), 0);
    feed_video(&mut f, video_tag(false, &[0x41, 0x22]), 33);
    feed_video(&mut f, video_tag(false, &[0x41, 0x33]), 66);
    let a = f.poll_frame().unwrap();
    assert_eq!(a.time.pts, 0);
    assert_eq!(a.dependency, FrameDependency::Independent);
    assert_eq!(a.buffer, vec![0x65, 0x11]);
    assert_eq!(a.time.dts, None);
    let b = f.poll_frame().unwrap();
    assert_eq!(b.time.pts, 33);
    assert_eq!(b.dependency, FrameDependency::Backwards);
    let c = f.poll_frame().unwrap();
    assert_eq!(c.time.pts, 66);
    assert_eq!(c.dependency, FrameDependency::Backwards);
    assert!(f.poll_frame().is_none());
}

#[test]
fn timestamp_reset_is_clamped() {
    let mut f = new_filter();
    f.process_event(video_metadata()).unwrap();
    feed_video(&mut f, seq_header_tag(), 0);
    feed_video(&mut f, video_tag(true, &[1]), 0);
    feed_video(&mut f, video_tag(false, &[2]), 33);
    feed_video(&mut f, video_tag(false, &[3]), 66);
    // Peer clock skews backwards: the delta clamps to zero.
    feed_video(&mut f, video_tag(false, &[4]), 60);
    // And the next delta counts from the skewed reference.
    feed_video(&mut f, video_tag(false, &[5]), 100);
    let pts: Vec<u64> = std::iter::from_fn(|| f.poll_frame()).map(|fr| fr.time.pts).collect();
    assert_eq!(pts, vec![0, 33, 66, 66, 106]);
}

#[test]
fn payload_before_parameter_sets_is_dropped_silently() {
    let mut f = new_filter();
    f.process_event(video_metadata()).unwrap();
    // An in-band NALU without SPS/PPS: no descriptor, no frame, no clock.
    feed_video(&mut f, video_tag(true, &[0x00, 0x00, 0x00, 0x02, 0x65, 0x88]), 500);
    assert!(f.video_stream.is_none());
    assert_eq!(f.video_time, 0);
    assert!(f.poll_frame().is_none());
    // Once the descriptor arrives, the clock starts from the next payload.
    feed_video(&mut f, seq_header_tag(), 700);
    feed_video(&mut f, video_tag(true, &[1]), 900);
    let fr = f.poll_frame().unwrap();
    assert_eq!(fr.time.pts, 0);
}

#[test]
fn in_band_parameter_sets_publish_the_descriptor() {
    let mut f = new_filter();
    f.process_event(video_metadata()).unwrap();
    let mut payload = vec![0x00, 0x00, 0x00, 0x01];
    payload.extend(sps_nal());
    payload.extend(vec![0x00, 0x00, 0x00, 0x01]);
    payload.extend(pps_nal());
    feed_video(&mut f, video_tag(true, &payload), 0);
    let stream = f.video_stream.as_ref().expect("descriptor from in-band path");
    match &stream.codec.properties {
        CodecTypeInfo::Video(v) => {
            assert_eq!((v.width, v.height), (1280, 720));
            assert_eq!(v.sps, sps_nal());
            assert_eq!(v.pps, pps_nal());
        }
        CodecTypeInfo::Audio(_) => panic!("expected the video codec"),
    }
    // The payload that carried the parameter sets is not emitted as a frame.
    assert!(f.poll_frame().is_none());
}

#[test]
fn end_of_sequence_is_dropped_silently() {
    let mut f = new_filter();
    f.process_event(video_metadata()).unwrap();
    feed_video(&mut f, seq_header_tag(), 0);
    feed_video(&mut f, video_tag(true, &[1]), 10);
    feed_video(&mut f, end_of_sequence_tag(), 999);
    let fr = f.poll_frame().unwrap();
    assert_eq!(fr.time.pts, 0);
    assert!(f.poll_frame().is_none());
    // The discarded tag did not advance the clock.
    assert_eq!(f.video_time, 0);
    feed_video(&mut f, video_tag(false, &[2]), 20);
    assert_eq!(f.poll_frame().unwrap().time.pts, 10);
}

#[test]
fn dependent_frames_before_first_keyframe_are_dropped() {
    let mut f = new_filter();
    f.process_event(video_metadata()).unwrap();
    feed_video(&mut f, seq_header_tag(), 0);
    feed_video(&mut f, video_tag(false, &[1]), 0);
    feed_video(&mut f, video_tag(false, &[2]), 33);
    assert!(f.poll_frame().is_none());
    feed_video(&mut f, video_tag(true, &[3]), 66);
    let fr = f.poll_frame().unwrap();
    assert_eq!(fr.dependency, FrameDependency::Independent);
    assert_eq!(fr.time.pts, 0);
}

#[test]
fn unsupported_audio_codec_is_fatal() {
    let mut f = new_filter();
    f.process_event(SessionEvent::Metadata {
        video_width: Some(1280),
        video_height: Some(720),
        audio_sample_rate: Some(44100),
    })
    .unwrap();
    // Sound format 2 is MP3, not AAC.
    let err = f
        .process_event(SessionEvent::Audio { data: vec![0x2F, 0x00], timestamp: 0 })
        .unwrap_err();
    assert_eq!(err, IngestError::UnsupportedCodec);
    assert_eq!(f.state, DriverState::Closed);
}

#[test]
fn aac_audio_descriptor_and_frames() {
    let mut f = new_filter();
    f.process_event(SessionEvent::Metadata {
        video_width: None,
        video_height: None,
        audio_sample_rate: Some(44100),
    })
    .unwrap();
    // First AAC tag publishes the descriptor, the next ones become frames.
    f.process_event(SessionEvent::Audio { data: vec![0xAF, 0x00, 0x12], timestamp: 0 }).unwrap();
    let stream = f.audio_stream.as_ref().expect("audio descriptor");
    assert_eq!(stream.id, 1);
    match &stream.codec.properties {
        CodecTypeInfo::Audio(a) => {
            assert_eq!(a.sample_rate, 44000);
            assert_eq!(a.sample_bpp, 16);
        }
        CodecTypeInfo::Video(_) => panic!("expected the audio codec"),
    }
    f.process_event(SessionEvent::Audio { data: vec![0xAF, 0x01, 0x34], timestamp: 10 }).unwrap();
    f.process_event(SessionEvent::Audio { data: vec![0xAF, 0x01, 0x56], timestamp: 30 }).unwrap();
    let a = f.poll_frame().unwrap();
    assert_eq!(a.time.pts, 0);
    assert_eq!(a.dependency, FrameDependency::Independent);
    assert_eq!(a.buffer, vec![0xAF, 0x01, 0x34]);
    let b = f.poll_frame().unwrap();
    assert_eq!(b.time.pts, 20);
}

#[test]
fn metadata_without_audio_does_not_block_startup() {
    let mut f = new_filter();
    f.process_event(video_metadata()).unwrap();
    feed_video(&mut f, seq_header_tag(), 0);
    // Streaming begins on the video descriptor alone.
    assert_eq!(f.state, DriverState::Streaming);
    // Audio that arrives anyway is accepted, not a startup requirement.
    f.process_event(SessionEvent::Audio { data: vec![0xAF, 0x00, 0x00], timestamp: 0 }).unwrap();
    assert!(f.audio_stream.is_some());
    assert_eq!(f.state, DriverState::Streaming);
}

#[test]
fn requests_yield_accept_actions() {
    let mut f = new_filter();
    let a = f.process_event(SessionEvent::ConnectionRequested { request_id: 7 }).unwrap();
    assert_eq!(a, SessionAction::AcceptRequest(7));
    let b = f
        .process_event(SessionEvent::PublishRequested {
            request_id: 9,
            app_name: "live".to_string(),
            stream_key: "key".to_string(),
        })
        .unwrap();
    assert_eq!(b, SessionAction::AcceptRequest(9));
    assert_eq!(f.publish_app.as_deref(), Some("live"));
    assert_eq!(f.publish_key.as_deref(), Some("key"));
    // Requests leave the driver stage and the assembler untouched.
    assert_eq!(f.state, DriverState::AwaitingMetadata);
    assert!(f.poll_frame().is_none());
}

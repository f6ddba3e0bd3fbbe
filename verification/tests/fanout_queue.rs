use streamhead::media::{
    CodecInfo, CodecTypeInfo, Fraction, Frame, FrameDependency, MediaTime, Stream, VideoCodecInfo,
};
use streamhead::queue::{MediaFrameQueue, RecvEvent};

fn vstream() -> Stream {
    Stream {
        id: 0,
        codec: CodecInfo {
            properties: CodecTypeInfo::Video(VideoCodecInfo {
                width: 1280,
                height: 720,
                profile_indication: 66,
                profile_compatibility: 0,
                level_indication: 30,
                sps: vec![0x67],
                pps: vec![0x68],
            }),
        },
        timebase: Fraction { numerator: 1, denominator: 1000 },
    }
}

fn vframe(pts: u64, key: bool) -> Frame {
    Frame {
        time: MediaTime {
            pts,
            dts: None,
            timebase: Fraction { numerator: 1, denominator: 1000 },
        },
        dependency: if key { FrameDependency::Independent } else { FrameDependency::Backwards },
        buffer: vec![pts as u8],
        stream: vstream(),
    }
}

fn expect_frame(q: &mut MediaFrameQueue, id: usize) -> Frame {
    match q.recv(id) {
        RecvEvent::Frame(f) => f,
        other => panic!("expected a frame, got {:?}", discr(&other)),
    }
}

fn discr(e: &RecvEvent) -> &'static str {
    match e {
        RecvEvent::Frame(_) => "Frame",
        RecvEvent::LaggedBy(_) => "LaggedBy",
        RecvEvent::Empty => "Empty",
        RecvEvent::EndOfStream => "EndOfStream",
    }
}

#[test]
fn late_join_starts_at_last_keyframe() {
    let mut q = MediaFrameQueue::new(50);
    q.push(vframe(0, true));
    q.push(vframe(1, false));
    q.push(vframe(2, false));
    q.push(vframe(3, false));
    q.push(vframe(4, true));
    let id = q.get_receiver();
    q.push(vframe(5, false));
    q.push(vframe(6, false));
    let f = expect_frame(&mut q, id);
    assert_eq!(f.time.pts, 4);
    assert_eq!(f.dependency, FrameDependency::Independent);
    assert_eq!(expect_frame(&mut q, id).time.pts, 5);
    assert_eq!(expect_frame(&mut q, id).time.pts, 6);
    assert!(matches!(q.recv(id), RecvEvent::Empty));
}

#[test]
fn slow_consumer_is_isolated_and_lag_is_reported() {
    let mut q = MediaFrameQueue::new(4);
    let a = q.get_receiver();
    let b = q.get_receiver();
    // A keeps up and sees every frame in order; B never reads.
    for i in 0..10u64 {
        q.push(vframe(i, true));
        let f = expect_frame(&mut q, a);
        assert_eq!(f.time.pts, i);
    }
    assert!(matches!(q.recv(a), RecvEvent::Empty));
    // B lost the six oldest frames, and is told so once.
    match q.recv(b) {
        RecvEvent::LaggedBy(k) => assert_eq!(k, 6),
        other => panic!("expected a lag signal, got {:?}", discr(&other)),
    }
    for i in 6..10u64 {
        assert_eq!(expect_frame(&mut q, b).time.pts, i);
    }
    assert!(matches!(q.recv(b), RecvEvent::Empty));
    q.close();
    assert!(matches!(q.recv(a), RecvEvent::EndOfStream));
    assert!(matches!(q.recv(b), RecvEvent::EndOfStream));
}

#[test]
fn consumer_without_cached_keyframe_waits_for_next_keyframe() {
    let mut q = MediaFrameQueue::new(50);
    let id = q.get_receiver();
    q.push(vframe(0, false));
    assert!(matches!(q.recv(id), RecvEvent::Empty));
    q.push(vframe(1, false));
    assert!(matches!(q.recv(id), RecvEvent::Empty));
    q.push(vframe(2, true));
    let f = expect_frame(&mut q, id);
    assert_eq!(f.time.pts, 2);
    assert_eq!(f.dependency, FrameDependency::Independent);
    q.push(vframe(3, false));
    assert_eq!(expect_frame(&mut q, id).time.pts, 3);
}

#[test]
fn first_delivered_video_frame_is_always_a_keyframe() {
    let mut q = MediaFrameQueue::new(50);
    q.push(vframe(0, true));
    q.push(vframe(1, false));
    let id = q.get_receiver();
    let f = expect_frame(&mut q, id);
    assert_eq!(f.dependency, FrameDependency::Independent);
}

#[test]
fn detached_consumer_does_not_hold_frames() {
    let mut q = MediaFrameQueue::new(4);
    let a = q.get_receiver();
    q.push(vframe(0, true));
    q.close_receiver(a);
    q.push(vframe(1, true));
    let b = q.get_receiver();
    // B joins at the cached keyframe and reads on alone.
    let f = expect_frame(&mut q, b);
    assert_eq!(f.time.pts, 1);
}

#[test]
fn frame_payloads_are_shared_intact() {
    let mut q = MediaFrameQueue::new(4);
    let a = q.get_receiver();
    let b = q.get_receiver();
    q.push(vframe(7, true));
    let fa = expect_frame(&mut q, a);
    let fb = expect_frame(&mut q, b);
    assert_eq!(fa.buffer, vec![7]);
    assert_eq!(fb.buffer, vec![7]);
    assert_eq!(fa.time.pts, fb.time.pts);
}

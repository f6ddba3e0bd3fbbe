use bytes::Bytes;
use rml_rtmp::handshake::{Handshake, HandshakeProcessResult, PeerType};
use rml_rtmp::sessions::{
    ClientSession, ClientSessionConfig, ClientSessionResult, PublishRequestType, ServerSession,
    ServerSessionConfig, ServerSessionEvent, ServerSessionResult, StreamMetadata,
};
use rml_rtmp::time::RtmpTimestamp;

use streamhead::media::{CodecTypeInfo, FrameDependency};
use streamhead::session::{
    DriverState, HandshakeStep, RtmpHandshake, RtmpReadFilter, SessionAction, SessionEvent,
};

fn sps_nal() -> Vec<u8> {
    vec![0x67, 0x42, 0x00, 0x1F, 0xF8, 0x0A, 0x00, 0xB7, 0xFA]
}

fn pps_nal() -> Vec<u8> {
    vec![0x68, 0xCE, 0x38, 0x80]
}

fn record() -> Vec<u8> {
    let mut v = vec![0x01, 0x42, 0x00, 0x1F, 0xFF, 0xE1, 0x00, 0x09];
    v.extend(sps_nal());
    v.push(0x01);
    v.extend(vec![0x00, 0x04]);
    v.extend(pps_nal());
    v
}

fn seq_header_tag() -> Vec<u8> {
    let mut v = vec![0x17, 0x00, 0x00, 0x00, 0x00];
    v.extend(record());
    v
}

fn video_tag(key: bool, payload: &[u8]) -> Vec<u8> {
    let mut v = vec![if key { 0x17 } else { 0x27 }, 0x01, 0x00, 0x00, 0x00];
    v.extend_from_slice(payload);
    v
}

fn convert_event(e: ServerSessionEvent) -> SessionEvent {
    match e {
        ServerSessionEvent::StreamMetadataChanged { metadata, .. } => SessionEvent::Metadata {
            video_width: metadata.video_width,
            video_height: metadata.video_height,
            audio_sample_rate: metadata.audio_sample_rate,
        },
        ServerSessionEvent::VideoDataReceived { data, timestamp, .. } => SessionEvent::Video {
            data: data.to_vec(),
            timestamp: timestamp.value,
        },
        ServerSessionEvent::AudioDataReceived { data, timestamp, .. } => SessionEvent::Audio {
            data: data.to_vec(),
            timestamp: timestamp.value,
        },
        ServerSessionEvent::ConnectionRequested { request_id, .. } => {
            SessionEvent::ConnectionRequested { request_id }
        }
        ServerSessionEvent::PublishStreamRequested { request_id, app_name, stream_key, .. } => {
            SessionEvent::PublishRequested { request_id, app_name, stream_key }
        }
        _ => SessionEvent::Other,
    }
}

fn feed_server(
    session: &mut ServerSession,
    f: &mut RtmpReadFilter,
    client: &mut ClientSession,
    bytes: &[u8],
) {
    let results = session.handle_input(bytes).expect("server engine");
    for r in results {
        match r {
            ServerSessionResult::OutboundResponse(p) => feed_client(session, f, client, &p.bytes),
            ServerSessionResult::RaisedEvent(e) => {
                match f.process_event(convert_event(e)).expect("driver accepts event") {
                    SessionAction::Continue => {}
                    SessionAction::AcceptRequest(id) => {
                        let responses = session.accept_request(id).expect("accept request");
                        for r2 in responses {
                            if let ServerSessionResult::OutboundResponse(p) = r2 {
                                feed_client(session, f, client, &p.bytes);
                            }
                        }
                    }
                }
            }
            ServerSessionResult::UnhandleableMessageReceived(_) => {}
        }
    }
}

fn feed_client(
    session: &mut ServerSession,
    f: &mut RtmpReadFilter,
    client: &mut ClientSession,
    bytes: &[u8],
) {
    let results = client.handle_input(bytes).expect("client handles input");
    run_client_results(session, f, client, results);
}

fn run_client_results(
    session: &mut ServerSession,
    f: &mut RtmpReadFilter,
    client: &mut ClientSession,
    results: Vec<ClientSessionResult>,
) {
    for r in results {
        match r {
            ClientSessionResult::OutboundResponse(p) => feed_server(session, f, client, &p.bytes),
            ClientSessionResult::RaisedEvent(_) => {}
            ClientSessionResult::UnhandleableMessageReceived(_) => {}
        }
    }
}

/// A canned publish session: connect, publish, metadata, sequence header and
/// three NALUs yield exactly three decoded frames with correct flags.
#[test]
fn canned_capture_yields_exactly_the_published_frames() {
    let (mut client, client_initial) =
        ClientSession::new(ClientSessionConfig::new()).expect("client session");
    let (mut server, server_initial) =
        ServerSession::new(ServerSessionConfig::new()).expect("server session");
    let mut f = RtmpReadFilter::new();

    for r in server_initial {
        if let ServerSessionResult::OutboundResponse(p) = r {
            feed_client(&mut server, &mut f, &mut client, &p.bytes);
        }
    }
    run_client_results(&mut server, &mut f, &mut client, client_initial);

    let r = client.request_connection("live".to_string()).expect("connect request");
    run_client_results(&mut server, &mut f, &mut client, vec![r]);
    let r = client
        .request_publishing("stream_key".to_string(), PublishRequestType::Live)
        .expect("publish request");
    run_client_results(&mut server, &mut f, &mut client, vec![r]);

    let mut metadata = StreamMetadata::new();
    metadata.video_width = Some(1280);
    metadata.video_height = Some(720);
    let r = client.publish_metadata(&metadata).expect("metadata");
    run_client_results(&mut server, &mut f, &mut client, vec![r]);
    assert_eq!(f.state, DriverState::AwaitingDescriptors);

    let payloads: Vec<(Vec<u8>, u32)> = vec![
        (seq_header_tag(), 0),
        (video_tag(true, &[0x65, 0x01]), 0),
        (video_tag(false, &[0x41, 0x02]), 33),
        (video_tag(false, &[0x41, 0x03]), 66),
    ];
    for (data, ts) in payloads {
        let r = client
            .publish_video_data(Bytes::from(data), RtmpTimestamp::new(ts), false)
            .expect("video data");
        run_client_results(&mut server, &mut f, &mut client, vec![r]);
    }

    assert_eq!(f.state, DriverState::Streaming);
    let stream = f.video_stream.as_ref().expect("descriptor published");
    match &stream.codec.properties {
        CodecTypeInfo::Video(v) => assert_eq!((v.width, v.height), (1280, 720)),
        CodecTypeInfo::Audio(_) => panic!("expected the video codec"),
    }

    let mut frames = Vec::new();
    while let Some(fr) = f.poll_frame() {
        frames.push(fr);
    }
    assert_eq!(frames.len(), 3);
    assert_eq!(frames[0].time.pts, 0);
    assert_eq!(frames[0].dependency, FrameDependency::Independent);
    assert_eq!(frames[0].buffer, vec![0x65, 0x01]);
    assert_eq!(frames[1].time.pts, 33);
    assert_eq!(frames[1].dependency, FrameDependency::Backwards);
    assert_eq!(frames[2].time.pts, 66);
    assert_eq!(frames[2].dependency, FrameDependency::Backwards);
}

#[test]
fn server_handshake_completes_against_a_client() {
    let mut client = Handshake::new(PeerType::Client);
    let mut server = RtmpHandshake::new();
    let mut to_server = client.generate_outbound_p0_and_p1().expect("client p0p1");
    let mut client_done = false;
    let mut guard = 0;
    while !client_done || !server.done {
        guard += 1;
        assert!(guard < 10, "handshake does not converge");
        if !to_server.is_empty() {
            let step = server.process_bytes(&to_server).expect("server step");
            to_server = Vec::new();
            let response = match step {
                HandshakeStep::InProgress(r) => r,
                HandshakeStep::Completed(r, _) => r,
            };
            if !response.is_empty() && !client_done {
                match client.process_bytes(&response).expect("client step") {
                    HandshakeProcessResult::InProgress { response_bytes } => {
                        to_server = response_bytes;
                    }
                    HandshakeProcessResult::Completed { response_bytes, .. } => {
                        to_server = response_bytes;
                        client_done = true;
                    }
                }
            }
        } else if client_done {
            break;
        }
    }
    assert!(server.done);
}

use streamhead::avc::{
    find_parameter_sets, get_codec_from_mp4, get_codec_from_nalu, parse_avc_config, rbsp_unescape,
    split_annexb,
};
use streamhead::flv::{parse_audio_tag, parse_video_tag, AvcPacketType};
use streamhead::media::{CodecTypeInfo, IngestError};

fn sps_nal() -> Vec<u8> {
    vec![0x67, 0x42, 0x00, 0x1F, 0xF8, 0x0A, 0x00, 0xB7, 0xFA]
}

fn pps_nal() -> Vec<u8> {
    vec![0x68, 0xCE, 0x38, 0x80]
}

fn record() -> Vec<u8> {
    let mut v = vec![0x01, 0x42, 0x00, 0x1F, 0xFF, 0xE1, 0x00, 0x09];
    v.extend(sps_nal());
    v.push(0x01);
    v.extend(vec![0x00, 0x04]);
    v.extend(pps_nal());
    v
}

fn annexb() -> Vec<u8> {
    let mut v = vec![0x00, 0x00, 0x00, 0x01];
    v.extend(sps_nal());
    v.extend(vec![0x00, 0x00, 0x00, 0x01]);
    v.extend(pps_nal());
    v
}

#[test]
fn audio_tag_header_fields() {
    let h = parse_audio_tag(&vec![0xAF, 0x01, 0x55]).unwrap();
    assert_eq!(h.sound_format, 10);
    assert_eq!(h.sound_rate, 3);
    assert_eq!(h.sound_size, 1);
    assert_eq!(h.sound_type, 1);
}

#[test]
fn audio_tag_empty_is_parse_error() {
    assert_eq!(parse_audio_tag(&vec![]).unwrap_err(), IngestError::FlvParse);
}

#[test]
fn video_tag_fields_and_payload() {
    let t = parse_video_tag(&vec![0x17, 0x01, 0x00, 0x00, 0x05, 0xAA, 0xBB]).unwrap();
    assert_eq!(t.frame_type, 1);
    assert_eq!(t.codec_id, 7);
    assert_eq!(t.packet_type, AvcPacketType::Nalu);
    assert_eq!(t.composition_time, 5);
    assert_eq!(t.avc_data, vec![0xAA, 0xBB]);
}

#[test]
fn video_tag_truncated_is_parse_error() {
    assert_eq!(
        parse_video_tag(&vec![0x17, 0x01, 0x00]).unwrap_err(),
        IngestError::FlvParse
    );
}

#[test]
fn video_tag_bad_frame_type_is_parse_error() {
    assert_eq!(
        parse_video_tag(&vec![0x07, 0x01, 0x00, 0x00, 0x00]).unwrap_err(),
        IngestError::FlvParse
    );
    assert_eq!(
        parse_video_tag(&vec![0x67, 0x01, 0x00, 0x00, 0x00]).unwrap_err(),
        IngestError::FlvParse
    );
}

#[test]
fn video_tag_bad_packet_type_is_parse_error() {
    assert_eq!(
        parse_video_tag(&vec![0x17, 0x03, 0x00, 0x00, 0x00]).unwrap_err(),
        IngestError::FlvParse
    );
}

#[test]
fn rbsp_unescape_strips_emulation_prevention() {
    let r = rbsp_unescape(&vec![0x12, 0x34, 0x00, 0x00, 0x03, 0x00, 0x86]);
    assert_eq!(r, vec![0x12, 0x34, 0x00, 0x00, 0x00, 0x86]);
}

#[test]
fn rbsp_unescape_keeps_plain_bytes() {
    let r = rbsp_unescape(&vec![0xE8, 0x43, 0x00, 0x03, 0x8F]);
    assert_eq!(r, vec![0xE8, 0x43, 0x00, 0x03, 0x8F]);
}

#[test]
fn split_annexb_finds_both_units() {
    let units = split_annexb(&annexb());
    assert_eq!(units.len(), 2);
    assert_eq!(units[0], sps_nal());
    assert_eq!(units[1], pps_nal());
}

#[test]
fn split_annexb_without_start_code_is_empty() {
    let units = split_annexb(&vec![0x12, 0x34, 0x56]);
    assert_eq!(units.len(), 0);
}

#[test]
fn record_parse_keeps_parameter_sets_verbatim() {
    let c = parse_avc_config(&record()).unwrap();
    assert_eq!(c.configuration_version, 1);
    assert_eq!(c.profile_indication, 66);
    assert_eq!(c.profile_compatibility, 0);
    assert_eq!(c.level_indication, 31);
    assert_eq!(c.nal_length_size, 4);
    assert_eq!(c.sps, sps_nal());
    assert_eq!(c.pps, pps_nal());
}

#[test]
fn record_truncated_is_parse_error() {
    let mut r = record();
    r.truncate(10);
    assert_eq!(parse_avc_config(&r).unwrap_err(), IngestError::FlvParse);
}

#[test]
fn codec_from_record_decodes_dimensions() {
    let ci = get_codec_from_mp4(&record()).unwrap();
    match ci.properties {
        CodecTypeInfo::Video(v) => {
            assert_eq!(v.width, 1280);
            assert_eq!(v.height, 720);
            assert_eq!(v.profile_indication, 66);
            assert_eq!(v.level_indication, 31);
            assert_eq!(v.sps, sps_nal());
            assert_eq!(v.pps, pps_nal());
        }
        CodecTypeInfo::Audio(_) => panic!("expected a video codec"),
    }
}

#[test]
fn in_band_parameter_sets_are_captured_verbatim() {
    let ctx = find_parameter_sets(&annexb());
    let (sps, summary) = ctx.sps.expect("sps captured");
    assert_eq!(sps, sps_nal());
    let s = summary.expect("sps decodes");
    assert_eq!((s.width, s.height), (1280, 720));
    assert_eq!(ctx.pps.expect("pps captured"), pps_nal());
}

#[test]
fn dimensions_agree_between_record_and_annexb_paths() {
    let a = get_codec_from_mp4(&record()).unwrap();
    let b = get_codec_from_nalu(&annexb()).unwrap();
    match (a.properties, b.properties) {
        (CodecTypeInfo::Video(x), CodecTypeInfo::Video(y)) => {
            assert_eq!((x.width, x.height), (y.width, y.height));
            assert_eq!(x.sps, y.sps);
        }
        _ => panic!("expected video codecs"),
    }
}

#[test]
fn nalu_path_without_parameter_sets_needs_more_data() {
    let err = get_codec_from_nalu(&vec![0x00, 0x00, 0x00, 0x01, 0x65, 0x88]).unwrap_err();
    assert_eq!(err, IngestError::NeedMoreData);
}

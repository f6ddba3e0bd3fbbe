use vstd::prelude::*;

verus! {

/// FLV audio tag header bit fields, straight from the first body byte.
#[derive(Clone, Copy, Debug, PartialEq, Eq, Structural)]
pub struct AudioTagHeader {
    /// Sound format nibble; 10 is AAC, the only accepted value downstream.
    pub sound_format: u8,
    /// Sound rate, 2 bits: 0 = 5.5 kHz, 1 = 11 kHz, 2 = 22 kHz, 3 = 44 kHz.
    pub sound_rate: u8,
    /// Sound size, 1 bit: 0 = 8 bit, 1 = 16 bit.
    pub sound_size: u8,
    /// Sound type, 1 bit: 0 = mono, 1 = stereo.
    pub sound_type: u8,
}

/// AVC packet kind carried in a video tag body.
#[derive(Clone, Copy, Debug, PartialEq, Eq, Structural)]
pub enum AvcPacketType {
    SequenceHeader,
    Nalu,
    EndOfSequence,
}

/// Decoded FLV video tag: the header nibbles, the AVC packet header, and the
/// packet payload with the 5 header bytes stripped.
#[derive(Debug)]
pub struct VideoTag {
    /// Frame type nibble: 1 = key, 2 = inter, 3 = disposable, 4 = generated
    /// key, 5 = info/command.
    pub frame_type: u8,
    /// Codec id nibble; 7 = AVC is the only value accepted downstream.
    pub codec_id: u8,
    pub packet_type: AvcPacketType,
    /// Signed 24-bit composition time offset in milliseconds, kept verbatim.
    pub composition_time: u32,
    pub avc_data: Vec<u8>,
}

/// What an FLV audio tag body means: the header byte split into bit fields.
pub open spec fn spec_audio_header(d: Seq<u8>) -> Option<AudioTagHeader> {
    if d.len() < 1 {
        None
    } else {
        Some(
            AudioTagHeader {
                sound_format: d[0] / 16,
                sound_rate: (d[0] / 4) % 4,
                sound_size: (d[0] / 2) % 2,
                sound_type: d[0] % 2,
            },
        )
    }
}

/// What the AVC packet type byte means.
pub open spec fn spec_avc_packet_type(b: u8) -> Option<AvcPacketType> {
    if b == 0 {
        Some(AvcPacketType::SequenceHeader)
    } else if b == 1 {
        Some(AvcPacketType::Nalu)
    } else if b == 2 {
        Some(AvcPacketType::EndOfSequence)
    } else {
        None
    }
}

/// Spec-level value of a decoded video tag.
pub struct VideoTagView {
    pub frame_type: u8,
    pub codec_id: u8,
    pub packet_type: AvcPacketType,
    pub composition_time: u32,
    pub avc_data: Seq<u8>,
}

/// What an FLV video tag body means: frame-type and codec nibbles, a 1-byte
/// AVC packet type, a 24-bit composition time, and the remaining payload.
/// Frame types outside 1..=5 and unknown packet types are malformed.
pub open spec fn spec_video_tag(d: Seq<u8>) -> Option<VideoTagView> {
    if d.len() < 5 {
        None
    } else {
        let frame_type = d[0] / 16;
        let codec_id = d[0] % 16;
        if frame_type < 1 || frame_type > 5 {
            None
        } else {
            match spec_avc_packet_type(d[1]) {
                None => None,
                Some(pt) => Some(
                    VideoTagView {
                        frame_type,
                        codec_id,
                        packet_type: pt,
                        composition_time: ((d[2] as int) * 0x10000 + (d[3] as int) * 0x100 + (
                        d[4] as int)) as u32,
                        avc_data: d.subrange(5, d.len() as int),
                    },
                ),
            }
        }
    }
}

impl View for VideoTag {
    type V = VideoTagView;

    open spec fn view(&self) -> VideoTagView {
        VideoTagView {
            frame_type: self.frame_type,
            codec_id: self.codec_id,
            packet_type: self.packet_type,
            composition_time: self.composition_time,
            avc_data: self.avc_data@,
        }
    }
}

/// Splits the audio tag header byte into its bit fields; fails exactly on an
/// empty body.
pub fn parse_audio_tag(data: &Vec<u8>) -> (r: Result<AudioTagHeader, crate::media::IngestError>)
    ensures
        match r {
            Ok(h) => spec_audio_header(data@) == Some(h),
            Err(e) => spec_audio_header(data@) is None && e
                == crate::media::IngestError::FlvParse,
        },
{
    if data.len() < 1 {
        return Err(crate::media::IngestError::FlvParse);
    }
    let b = data[0];
    Ok(
        AudioTagHeader {
            sound_format: b / 16,
            sound_rate: (b / 4) % 4,
            sound_size: (b / 2) % 2,
            sound_type: b % 2,
        },
    )
}

/// Decodes an FLV video tag body and its AVC packet header; fails exactly on
/// the inputs `spec_video_tag` calls malformed.
pub fn parse_video_tag(data: &Vec<u8>) -> (r: Result<VideoTag, crate::media::IngestError>)
    ensures
        match r {
            Ok(t) => spec_video_tag(data@) == Some(t@),
            Err(e) => spec_video_tag(data@) is None && e == crate::media::IngestError::FlvParse,
        },
{
    if data.len() < 5 {
        return Err(crate::media::IngestError::FlvParse);
    }
    let frame_type = data[0] / 16;
    let codec_id = data[0] % 16;
    if frame_type < 1 || frame_type > 5 {
        return Err(crate::media::IngestError::FlvParse);
    }
    let packet_type = if data[1] == 0 {
        AvcPacketType::SequenceHeader
    } else if data[1] == 1 {
        AvcPacketType::Nalu
    } else if data[1] == 2 {
        AvcPacketType::EndOfSequence
    } else {
        return Err(crate::media::IngestError::FlvParse);
    };
    let composition_time = (data[2] as u32) * 0x10000 + (data[3] as u32) * 0x100 + (data[4] as u32);
    let mut avc_data: Vec<u8> = Vec::new();
    let mut i: usize = 5;
    while i < data.len()
        invariant
            5 <= i <= data.len(),
            data@.len() >= 5,
            avc_data@ == data@.subrange(5, i as int),
        decreases data.len() - i,
    {
        avc_data.push(data[i]);
        i = i + 1;
    }
    proof {
        assert(avc_data@ =~= data@.subrange(5, data@.len() as int));
    }
    Ok(VideoTag { frame_type, codec_id, packet_type, composition_time, avc_data })
}

} // verus!

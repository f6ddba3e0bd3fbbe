use vstd::prelude::*;

use crate::media::IngestError;

verus! {

// ---------------------------------------------------------------------------
// RBSP unescaping
// ---------------------------------------------------------------------------
/// Number of zero bytes a scanner remembers: two zeros arm the
/// emulation-prevention escape.
pub open spec fn spec_next_zero_run(zeros: int, b: u8) -> int {
    if b == 0 {
        if zeros < 2 {
            zeros + 1
        } else {
            2
        }
    } else {
        0
    }
}

/// RBSP bytes of a NAL payload from position `i` on, with `zeros` zero bytes
/// immediately before `i`: every 0x03 that follows two zeros is dropped.
pub open spec fn spec_rbsp_unescape_from(d: Seq<u8>, i: int, zeros: int) -> Seq<u8>
    decreases d.len() - i,
{
    if i < 0 || i >= d.len() {
        Seq::empty()
    } else if zeros >= 2 && d[i] == 3 {
        spec_rbsp_unescape_from(d, i + 1, 0)
    } else {
        seq![d[i]] + spec_rbsp_unescape_from(d, i + 1, spec_next_zero_run(zeros, d[i]))
    }
}

/// RBSP bytes of a whole NAL payload (header byte already stripped).
pub open spec fn spec_rbsp_unescape(d: Seq<u8>) -> Seq<u8> {
    spec_rbsp_unescape_from(d, 0, 0)
}

/// Strips H.264 emulation-prevention bytes: each 0x03 after two zero bytes is
/// removed, and the zero run restarts behind it.
pub fn rbsp_unescape(d: &Vec<u8>) -> (r: Vec<u8>)
    ensures
        r@ == spec_rbsp_unescape(d@),
{
    let mut r: Vec<u8> = Vec::new();
    let mut i: usize = 0;
    let mut zeros: u8 = 0;
    while i < d.len()
        invariant
            i <= d.len(),
            0 <= zeros <= 2,
            spec_rbsp_unescape(d@) == r@ + spec_rbsp_unescape_from(d@, i as int, zeros as int),
        decreases d.len() - i,
    {
        let b = d[i];
        if zeros >= 2 && b == 3 {
            zeros = 0;
        } else {
            r.push(b);
            if b == 0 {
                if zeros < 2 {
                    zeros = zeros + 1;
                }
            } else {
                zeros = 0;
            }
        }
        proof {
            assert(spec_rbsp_unescape(d@) == r@ + spec_rbsp_unescape_from(
                d@,
                i as int + 1,
                zeros as int,
            )) by {
                assert(forall|a: Seq<u8>, b_: Seq<u8>, c: Seq<u8>| (a + b_) + c =~= a + (b_ + c));
            }
        }
        i = i + 1;
    }
    proof {
        assert(r@ + spec_rbsp_unescape_from(d@, d@.len() as int, zeros as int) =~= r@);
    }
    r
}

// ---------------------------------------------------------------------------
// AVCDecoderConfigurationRecord
// ---------------------------------------------------------------------------
/// Decoded AVCDecoderConfigurationRecord header: profile bytes and the first
/// SPS and PPS NAL units, kept verbatim.
#[derive(Debug)]
pub struct AvcConfig {
    pub configuration_version: u8,
    pub profile_indication: u8,
    pub profile_compatibility: u8,
    pub level_indication: u8,
    /// NAL length prefix size in bytes, 1 to 4.
    pub nal_length_size: u8,
    pub sps: Vec<u8>,
    pub pps: Vec<u8>,
}

/// Spec-level value of a decoded configuration record.
pub struct AvcConfigView {
    pub configuration_version: u8,
    pub profile_indication: u8,
    pub profile_compatibility: u8,
    pub level_indication: u8,
    pub nal_length_size: u8,
    pub sps: Seq<u8>,
    pub pps: Seq<u8>,
}

impl View for AvcConfig {
    type V = AvcConfigView;

    open spec fn view(&self) -> AvcConfigView {
        AvcConfigView {
            configuration_version: self.configuration_version,
            profile_indication: self.profile_indication,
            profile_compatibility: self.profile_compatibility,
            level_indication: self.level_indication,
            nal_length_size: self.nal_length_size,
            sps: self.sps@,
            pps: self.pps@,
        }
    }
}

/// The 16-bit big-endian length prefix of an entry starting at `i`.
pub open spec fn spec_entry_len(d: Seq<u8>, i: int) -> int {
    (d[i] as int) * 256 + (d[i + 1] as int)
}

/// One length-prefixed entry starting at `i`, if it lies inside `d`.
pub open spec fn spec_entry_at(d: Seq<u8>, i: int) -> Option<Seq<u8>> {
    if i + 2 > d.len() {
        None
    } else if i + 2 + spec_entry_len(d, i) > d.len() {
        None
    } else {
        Some(d.subrange(i + 2, i + 2 + spec_entry_len(d, i)))
    }
}

/// Position just past `n` length-prefixed entries starting at `i`.
pub open spec fn spec_entries_end(d: Seq<u8>, i: int, n: int) -> Option<int>
    decreases n,
{
    if n <= 0 {
        Some(i)
    } else if i + 2 > d.len() {
        None
    } else if i + 2 + spec_entry_len(d, i) > d.len() {
        None
    } else {
        spec_entries_end(d, i + 2 + spec_entry_len(d, i), n - 1)
    }
}

/// Number of SPS entries the record announces: the low five bits of byte 5.
pub open spec fn spec_sps_count(d: Seq<u8>) -> int {
    (d[5] % 32) as int
}

/// What an AVCDecoderConfigurationRecord means: four header bytes, a NAL
/// length size, at least one SPS entry (the first is kept, all are walked),
/// then at least one PPS entry (the first is kept).
pub open spec fn spec_avc_config(d: Seq<u8>) -> Option<AvcConfigView> {
    if d.len() < 6 {
        None
    } else if spec_sps_count(d) < 1 {
        None
    } else {
        match (spec_entry_at(d, 6), spec_entries_end(d, 6, spec_sps_count(d))) {
            (Some(sps), Some(p)) => if p + 1 > d.len() || d[p] < 1 {
                None
            } else {
                match spec_entry_at(d, p + 1) {
                    Some(pps) => Some(
                        AvcConfigView {
                            configuration_version: d[0],
                            profile_indication: d[1],
                            profile_compatibility: d[2],
                            level_indication: d[3],
                            nal_length_size: ((d[4] % 4) + 1) as u8,
                            sps,
                            pps,
                        },
                    ),
                    None => None,
                }
            },
            _ => None,
        }
    }
}

/// Copies `d[a..b]`.
pub fn copy_range(d: &Vec<u8>, a: usize, b: usize) -> (r: Vec<u8>)
    requires
        a <= b <= d@.len(),
    ensures
        r@ == d@.subrange(a as int, b as int),
{
    let mut r: Vec<u8> = Vec::new();
    let mut i: usize = a;
    while i < b
        invariant
            a <= i <= b <= d@.len(),
            r@ == d@.subrange(a as int, i as int),
        decreases b - i,
    {
        r.push(d[i]);
        proof {
            assert(r@ =~= d@.subrange(a as int, i + 1));
        }
        i = i + 1;
    }
    r
}

/// Reads the length-prefixed entry at `i`; `Ok` carries the bytes and the
/// position just past the entry.
fn read_entry(d: &Vec<u8>, i: usize) -> (r: Result<(Vec<u8>, usize), IngestError>)
    requires
        i <= d@.len(),
    ensures
        match r {
            Ok(p) => spec_entry_at(d@, i as int) == Some(p.0@) && p.1 == i + 2 + spec_entry_len(
                d@,
                i as int,
            ) && p.1 <= d@.len(),
            Err(e) => spec_entry_at(d@, i as int) is None && e == IngestError::FlvParse,
        },
{
    if d.len() - i < 2 {
        return Err(IngestError::FlvParse);
    }
    let l: usize = (d[i] as usize) * 256 + (d[i + 1] as usize);
    if d.len() - (i + 2) < l {
        return Err(IngestError::FlvParse);
    }
    let bytes = copy_range(d, i + 2, i + 2 + l);
    Ok((bytes, i + 2 + l))
}

/// Decodes an AVCDecoderConfigurationRecord; fails exactly on the inputs
/// `spec_avc_config` calls malformed.
pub fn parse_avc_config(d: &Vec<u8>) -> (r: Result<AvcConfig, IngestError>)
    ensures
        match r {
            Ok(c) => spec_avc_config(d@) == Some(c@),
            Err(e) => spec_avc_config(d@) is None && e == IngestError::FlvParse,
        },
{
    if d.len() < 6 {
        return Err(IngestError::FlvParse);
    }
    let num_sps = d[5] % 32;
    if num_sps < 1 {
        return Err(IngestError::FlvParse);
    }
    let (sps, after_first) = match read_entry(d, 6) {
        Ok(p) => p,
        Err(e) => { return Err(e) },
    };
    // Walk the remaining SPS entries to find where the PPS section starts.
    let mut pos: usize = after_first;
    let mut left: u8 = num_sps - 1;
    while left > 0
        invariant
            pos <= d@.len(),
            num_sps as int == spec_sps_count(d@),
            spec_entries_end(d@, 6, spec_sps_count(d@)) == spec_entries_end(
                d@,
                pos as int,
                left as int,
            ),
        decreases left,
    {
        match read_entry(d, pos) {
            Ok(p) => {
                pos = p.1;
                left = left - 1;
            },
            Err(e) => {
                proof {
                    assert(spec_entries_end(d@, pos as int, left as int) is None);
                    assert(spec_avc_config(d@) is None);
                }
                return Err(e);
            },
        }
    }
    if d.len() - pos < 1 || d[pos] < 1 {
        return Err(IngestError::FlvParse);
    }
    let (pps, _after_pps) = match read_entry(d, pos + 1) {
        Ok(p) => p,
        Err(e) => { return Err(e) },
    };
    Ok(
        AvcConfig {
            configuration_version: d[0],
            profile_indication: d[1],
            profile_compatibility: d[2],
            level_indication: d[3],
            nal_length_size: (d[4] % 4) + 1,
            sps,
            pps,
        },
    )
}

} // verus!

use crate::flv::AudioTagHeader;
use crate::media::{
    AudioCodecInfo, CodecInfo, CodecTypeInfo, SoundType, VideoCodecInfo, VideoCodecView, clone_bytes,
};

verus! {

// ---------------------------------------------------------------------------
// Annex-B NAL unit scanning
// ---------------------------------------------------------------------------
/// Position of the first three-byte start code `00 00 01` at or after `i`.
pub open spec fn spec_find_start(d: Seq<u8>, i: int) -> Option<int>
    decreases d.len() - i,
{
    if i < 0 || i + 3 > d.len() {
        None
    } else if d[i] == 0 && d[i + 1] == 0 && d[i + 2] == 1 {
        Some(i)
    } else {
        spec_find_start(d, i + 1)
    }
}

/// A found start code lies at or after the scan origin, fits in the data, and
/// really is `00 00 01`.
pub proof fn lemma_find_start_props(d: Seq<u8>, i: int)
    ensures
        match spec_find_start(d, i) {
            Some(p) => i <= p && p + 3 <= d.len() && d[p] == 0 && d[p + 1] == 0 && d[p + 2] == 1,
            None => true,
        },
    decreases d.len() - i,
{
    if !(i < 0 || i + 3 > d.len()) {
        if !(d[i] == 0 && d[i + 1] == 0 && d[i + 2] == 1) {
            lemma_find_start_props(d, i + 1);
        }
    }
}

/// Bytes with the trailing zero run removed; Annex-B units may be padded with
/// `trailing_zero_8bits` before the next start code.
pub open spec fn spec_trim_zeros(s: Seq<u8>) -> Seq<u8>
    decreases s.len(),
{
    if s.len() > 0 && s[s.len() - 1] == 0 {
        spec_trim_zeros(s.drop_last())
    } else {
        s
    }
}

/// NAL units of the byte stream that follows a start code: one unit up to
/// each further start code, each trimmed of trailing zeros.
pub open spec fn spec_units_after(d: Seq<u8>) -> Seq<Seq<u8>>
    decreases d.len(),
    via spec_units_after_decreases
{
    match spec_find_start(d, 0) {
        None => seq![spec_trim_zeros(d)],
        Some(q) => seq![spec_trim_zeros(d.subrange(0, q))] + spec_units_after(
            d.subrange(q + 3, d.len() as int),
        ),
    }
}

#[via_fn]
proof fn spec_units_after_decreases(d: Seq<u8>) {
    lemma_find_start_props(d, 0);
}

/// NAL units of an Annex-B byte stream: everything before the first start
/// code is discarded, then one unit per start code.
pub open spec fn spec_annexb_units(d: Seq<u8>) -> Seq<Seq<u8>> {
    match spec_find_start(d, 0) {
        None => Seq::empty(),
        Some(p) => spec_units_after(d.subrange(p + 3, d.len() as int)),
    }
}

/// Scans forward for a three-byte start code.
fn exec_find_start(d: &Vec<u8>, from: usize) -> (r: Option<usize>)
    ensures
        match r {
            Some(p) => spec_find_start(d@, from as int) == Some(p as int) && from <= p && p + 3
                <= d@.len(),
            None => spec_find_start(d@, from as int) is None,
        },
{
    let mut j: usize = from;
    while d.len() >= 3 && j <= d.len() - 3
        invariant
            from <= j,
            spec_find_start(d@, from as int) == spec_find_start(d@, j as int),
        decreases d@.len() - j,
    {
        if d[j] == 0 && d[j + 1] == 0 && d[j + 2] == 1 {
            return Some(j);
        }
        j = j + 1;
    }
    None
}

/// Removes the trailing zero run of a byte vector.
fn trim_zeros(v: Vec<u8>) -> (r: Vec<u8>)
    ensures
        r@ == spec_trim_zeros(v@),
{
    let ghost v0 = v@;
    let mut w = v;
    while w.len() > 0 && w[w.len() - 1] == 0
        invariant
            spec_trim_zeros(w@) == spec_trim_zeros(v0),
        decreases w.len(),
    {
        w.pop();
    }
    w
}

/// Splits the bytes that follow a start code into trimmed NAL units.
fn units_after(d: &Vec<u8>) -> (r: Vec<Vec<u8>>)
    ensures
        r@.map_values(|u: Vec<u8>| u@) == spec_units_after(d@),
    decreases d@.len(),
{
    match exec_find_start(d, 0) {
        None => {
            let all = copy_range(d, 0, d.len());
            proof {
                assert(all@ =~= d@);
            }
            let unit = trim_zeros(all);
            let mut r: Vec<Vec<u8>> = Vec::new();
            r.push(unit);
            proof {
                assert(r@.map_values(|u: Vec<u8>| u@) =~= seq![spec_trim_zeros(d@)]);
            }
            r
        },
        Some(q) => {
            let n = d.len();
            let first = trim_zeros(copy_range(d, 0, q));
            let rest_bytes = copy_range(d, q + 3, n);
            let mut rest = units_after(&rest_bytes);
            let ghost rest0 = rest@;
            let mut r: Vec<Vec<u8>> = Vec::new();
            r.push(first);
            r.append(&mut rest);
            proof {
                assert(r@.map_values(|u: Vec<u8>| u@) =~= seq![
                    spec_trim_zeros(d@.subrange(0, q as int)),
                ] + rest0.map_values(|u: Vec<u8>| u@));
            }
            r
        },
    }
}

/// Splits an Annex-B byte stream into its trimmed NAL units.
pub fn split_annexb(d: &Vec<u8>) -> (r: Vec<Vec<u8>>)
    ensures
        r@.map_values(|u: Vec<u8>| u@) == spec_annexb_units(d@),
{
    match exec_find_start(d, 0) {
        None => {
            let r: Vec<Vec<u8>> = Vec::new();
            proof {
                assert(r@.map_values(|u: Vec<u8>| u@) =~= Seq::<Seq<u8>>::empty());
            }
            r
        },
        Some(p) => {
            let n = d.len();
            let rest = copy_range(d, p + 3, n);
            units_after(&rest)
        },
    }
}

// ---------------------------------------------------------------------------
// SPS decoding and parameter-set capture
// ---------------------------------------------------------------------------
/// The `nal_unit_type` of a NAL unit: the low five bits of its first byte, or
/// -1 for an empty unit.
pub open spec fn spec_nal_type(u: Seq<u8>) -> int {
    if u.len() > 0 {
        (u[0] % 32) as int
    } else {
        -1
    }
}

/// The last NAL unit of the given type, matching a scanner that overwrites
/// its capture on every hit.
pub open spec fn spec_last_nal_of_type(units: Seq<Seq<u8>>, t: int) -> Option<Seq<u8>>
    decreases units.len(),
{
    if units.len() == 0 {
        None
    } else if spec_nal_type(units.last()) == t {
        Some(units.last())
    } else {
        spec_last_nal_of_type(units.drop_last(), t)
    }
}

/// What SPS parsing yields: pixel dimensions after cropping, and the three
/// profile/level bytes.
#[derive(Clone, Copy, Debug, PartialEq, Eq, Structural)]
pub struct SpsSummary {
    pub width: u32,
    pub height: u32,
    pub profile_indication: u8,
    pub profile_compatibility: u8,
    pub level_indication: u8,
}

/// What H.264 SPS parsing returns for given RBSP bytes; stated by name only,
/// the parse being a function of the bytes alone.
pub uninterp spec fn spec_sps_summary(rbsp: Seq<u8>) -> Option<SpsSummary>;

/// Relies on h264_reader's `SeqParameterSet::from_bits` and
/// `SeqParameterSet::pixel_dimensions`: both the parse and the derived
/// cropping-aware pixel dimensions depend on the RBSP bytes alone.
#[verifier::external_body]
fn decode_sps_rbsp(rbsp: &Vec<u8>) -> (r: Option<SpsSummary>)
    ensures
        r == spec_sps_summary(rbsp@),
{
    let bits = h264_reader::rbsp::BitReader::new(&rbsp[..]);
    let sps = h264_reader::nal::sps::SeqParameterSet::from_bits(bits).ok()?;
    let (width, height) = sps.pixel_dimensions().ok()?;
    Some(SpsSummary {
        width,
        height,
        profile_indication: sps.profile_idc.into(),
        profile_compatibility: sps.constraint_flags.into(),
        level_indication: sps.level_idc,
    })
}

/// Summary of an SPS NAL unit: header byte stripped, emulation-prevention
/// bytes removed, then parsed.
pub open spec fn spec_sps_of_unit(u: Seq<u8>) -> Option<SpsSummary> {
    spec_sps_summary(spec_rbsp_unescape(u.skip(1)))
}

/// SPS and PPS NAL units captured from an Annex-B scan, with the decoded
/// summary of the SPS.
pub struct ParameterSetContext {
    pub sps: Option<(Vec<u8>, Option<SpsSummary>)>,
    pub pps: Option<Vec<u8>>,
}

pub struct SpsHandler;

pub struct PpsHandler;

impl SpsHandler {
    /// Records an SPS NAL unit and its decoded summary, replacing any
    /// earlier capture.
    pub fn push(&self, ctx: &mut ParameterSetContext, buf: &Vec<u8>) -> (nothing: ())
        requires
            buf@.len() > 0,
        ensures
            final(ctx).sps matches Some(p) && p.0@ == buf@ && p.1 == spec_sps_of_unit(buf@),
            final(ctx).pps == old(ctx).pps,
    {
        let tail = copy_range(buf, 1, buf.len());
        proof {
            assert(tail@ =~= buf@.skip(1));
        }
        let rbsp = rbsp_unescape(&tail);
        let summary = decode_sps_rbsp(&rbsp);
        ctx.sps = Some((clone_bytes(buf), summary));
    }
}

impl PpsHandler {
    /// Records a PPS NAL unit verbatim, replacing any earlier capture.
    pub fn push(&self, ctx: &mut ParameterSetContext, buf: &Vec<u8>) -> (nothing: ())
        ensures
            final(ctx).pps matches Some(v) && v@ == buf@,
            final(ctx).sps == old(ctx).sps,
    {
        ctx.pps = Some(clone_bytes(buf));
    }
}

/// What a finished scan must have captured from the given units.
pub open spec fn spec_ctx_matches(ctx: ParameterSetContext, units: Seq<Seq<u8>>) -> bool {
    (match spec_last_nal_of_type(units, 7) {
        Some(u) => ctx.sps matches Some(p) && p.0@ == u && p.1 == spec_sps_of_unit(u),
        None => ctx.sps is None,
    }) && (match spec_last_nal_of_type(units, 8) {
        Some(u) => ctx.pps matches Some(v) && v@ == u,
        None => ctx.pps is None,
    })
}

/// Scans an Annex-B byte stream and captures the last SPS and PPS NAL units.
pub fn find_parameter_sets(bytes: &Vec<u8>) -> (ctx: ParameterSetContext)
    ensures
        spec_ctx_matches(ctx, spec_annexb_units(bytes@)),
{
    let units = split_annexb(bytes);
    let ghost us = units@.map_values(|u: Vec<u8>| u@);
    let mut ctx = ParameterSetContext { sps: None, pps: None };
    let mut k: usize = 0;
    while k < units.len()
        invariant
            k <= units.len(),
            us == units@.map_values(|u: Vec<u8>| u@),
            us == spec_annexb_units(bytes@),
            spec_ctx_matches(ctx, us.subrange(0, k as int)),
        decreases units@.len() - k,
    {
        let u = &units[k];
        if u.len() > 0 {
            let t = u[0] % 32;
            if t == 7 {
                SpsHandler.push(&mut ctx, u);
            } else if t == 8 {
                PpsHandler.push(&mut ctx, u);
            }
        }
        proof {
            assert(us.subrange(0, k + 1).drop_last() =~= us.subrange(0, k as int));
            assert(us.subrange(0, k + 1).last() == us[k as int]);
            assert(us[k as int] == units@[k as int]@);
        }
        k = k + 1;
    }
    proof {
        assert(us.subrange(0, us.len() as int) =~= us);
    }
    ctx
}

} // verus!

verus! {

// ---------------------------------------------------------------------------
// Codec descriptors
// ---------------------------------------------------------------------------
/// Video codec descriptor derived from a sequence-header packet: profile and
/// level bytes come from the record, dimensions from the SPS, and the SPS and
/// PPS bytes are kept verbatim.
pub open spec fn spec_codec_from_record(d: Seq<u8>) -> Option<VideoCodecView> {
    match spec_avc_config(d) {
        None => None,
        Some(c) => if c.sps.len() < 1 {
            None
        } else {
            match spec_sps_of_unit(c.sps) {
                None => None,
                Some(s) => Some(
                    VideoCodecView {
                        width: s.width,
                        height: s.height,
                        profile_indication: c.profile_indication,
                        profile_compatibility: c.profile_compatibility,
                        level_indication: c.level_indication,
                        sps: c.sps,
                        pps: c.pps,
                    },
                ),
            }
        },
    }
}

/// Derives the video codec descriptor from an AVCDecoderConfigurationRecord.
pub fn get_codec_from_mp4(avc_data: &Vec<u8>) -> (r: Result<CodecInfo, IngestError>)
    ensures
        match r {
            Ok(ci) => spec_codec_from_record(avc_data@) matches Some(v) && ci@
                == crate::media::CodecView::Video(v),
            Err(e) => spec_codec_from_record(avc_data@) is None && e == IngestError::FlvParse,
        },
{
    let config = match parse_avc_config(avc_data) {
        Ok(c) => c,
        Err(e) => { return Err(e) },
    };
    if config.sps.len() < 1 {
        return Err(IngestError::FlvParse);
    }
    let tail = copy_range(&config.sps, 1, config.sps.len());
    proof {
        assert(tail@ =~= config.sps@.skip(1));
    }
    let rbsp = rbsp_unescape(&tail);
    let summary = match decode_sps_rbsp(&rbsp) {
        Some(s) => s,
        None => { return Err(IngestError::FlvParse) },
    };
    Ok(
        CodecInfo {
            properties: CodecTypeInfo::Video(
                VideoCodecInfo {
                    width: summary.width,
                    height: summary.height,
                    profile_indication: config.profile_indication,
                    profile_compatibility: config.profile_compatibility,
                    level_indication: config.level_indication,
                    sps: config.sps,
                    pps: config.pps,
                },
            ),
        },
    )
}

/// Video codec descriptor derived from in-band NAL units: everything,
/// profile bytes included, comes from the captured SPS; the PPS rides along
/// verbatim.  Missing parameter sets are `NeedMoreData`, an SPS the parser
/// rejects is `FlvParse`.
pub open spec fn spec_codec_from_nalu(d: Seq<u8>) -> Result<VideoCodecView, IngestError> {
    let units = spec_annexb_units(d);
    match (spec_last_nal_of_type(units, 7), spec_last_nal_of_type(units, 8)) {
        (Some(sps), Some(pps)) => match spec_sps_of_unit(sps) {
            None => Err(IngestError::FlvParse),
            Some(s) => Ok(
                VideoCodecView {
                    width: s.width,
                    height: s.height,
                    profile_indication: s.profile_indication,
                    profile_compatibility: s.profile_compatibility,
                    level_indication: s.level_indication,
                    sps,
                    pps,
                },
            ),
        },
        _ => Err(IngestError::NeedMoreData),
    }
}

/// Builds the video codec descriptor from captured parameter sets.
pub fn get_video_codec_info(parameter_sets: ParameterSetContext) -> (r: Result<
    CodecInfo,
    IngestError,
>)
    ensures
        match (parameter_sets.sps, parameter_sets.pps) {
            (Some(p), Some(pps)) => match p.1 {
                None => r == Err::<CodecInfo, IngestError>(IngestError::FlvParse),
                Some(s) => r matches Ok(ci) && ci@ == crate::media::CodecView::Video(
                    VideoCodecView {
                        width: s.width,
                        height: s.height,
                        profile_indication: s.profile_indication,
                        profile_compatibility: s.profile_compatibility,
                        level_indication: s.level_indication,
                        sps: p.0@,
                        pps: pps@,
                    },
                ),
            },
            _ => r == Err::<CodecInfo, IngestError>(IngestError::NeedMoreData),
        },
{
    let (sps_bytes, summary) = match parameter_sets.sps {
        Some(p) => p,
        None => { return Err(IngestError::NeedMoreData) },
    };
    let pps_bytes = match parameter_sets.pps {
        Some(p) => p,
        None => { return Err(IngestError::NeedMoreData) },
    };
    let s = match summary {
        Some(s) => s,
        None => { return Err(IngestError::FlvParse) },
    };
    Ok(
        CodecInfo {
            properties: CodecTypeInfo::Video(
                VideoCodecInfo {
                    width: s.width,
                    height: s.height,
                    profile_indication: s.profile_indication,
                    profile_compatibility: s.profile_compatibility,
                    level_indication: s.level_indication,
                    sps: sps_bytes,
                    pps: pps_bytes,
                },
            ),
        },
    )
}

/// Derives the video codec descriptor from an in-band Annex-B NALU payload.
pub fn get_codec_from_nalu(avc_data: &Vec<u8>) -> (r: Result<CodecInfo, IngestError>)
    ensures
        match r {
            Ok(ci) => spec_codec_from_nalu(avc_data@) matches Ok(v) && ci@
                == crate::media::CodecView::Video(v),
            Err(e) => spec_codec_from_nalu(avc_data@) == Err::<VideoCodecView, IngestError>(e),
        },
{
    let parameter_sets = find_parameter_sets(avc_data);
    get_video_codec_info(parameter_sets)
}

/// Maps the FLV audio tag header to an AAC descriptor; every other sound
/// format is rejected as `UnsupportedCodec`.
pub open spec fn spec_audio_codec(h: AudioTagHeader) -> Result<AudioCodecInfo, IngestError> {
    if h.sound_format != 10 {
        Err(IngestError::UnsupportedCodec)
    } else {
        Ok(
            AudioCodecInfo {
                sample_rate: if h.sound_rate == 0 {
                    5500u32
                } else if h.sound_rate == 1 {
                    11000u32
                } else if h.sound_rate == 2 {
                    22000u32
                } else {
                    44000u32
                },
                sample_bpp: if h.sound_size == 0 {
                    8u32
                } else {
                    16u32
                },
                sound_type: if h.sound_type == 0 {
                    SoundType::Mono
                } else {
                    SoundType::Stereo
                },
            },
        )
    }
}

/// Builds the audio codec descriptor from the FLV audio tag header.
pub fn get_audio_codec_info(h: AudioTagHeader) -> (r: Result<AudioCodecInfo, IngestError>)
    ensures
        r == spec_audio_codec(h),
{
    if h.sound_format != 10 {
        return Err(IngestError::UnsupportedCodec);
    }
    Ok(
        AudioCodecInfo {
            sample_rate: if h.sound_rate == 0 {
                5500
            } else if h.sound_rate == 1 {
                11000
            } else if h.sound_rate == 2 {
                22000
            } else {
                44000
            },
            sample_bpp: if h.sound_size == 0 {
                8
            } else {
                16
            },
            sound_type: if h.sound_type == 0 {
                SoundType::Mono
            } else {
                SoundType::Stereo
            },
        },
    )
}

/// The SPS and PPS NAL units a record-path descriptor carries are
/// byte-identical to the first length-prefixed entries of each kind on the
/// wire, taken straight out of the configuration record.
pub proof fn lemma_record_parameter_sets_verbatim(d: Seq<u8>)
    requires
        spec_codec_from_record(d) is Some,
    ensures
        spec_avc_config(d) is Some,
        spec_codec_from_record(d).unwrap().sps == spec_avc_config(d).unwrap().sps,
        spec_codec_from_record(d).unwrap().pps == spec_avc_config(d).unwrap().pps,
        spec_avc_config(d).unwrap().sps == d.subrange(8, 8 + spec_entry_len(d, 6)),
{
    assert(spec_entry_at(d, 6) == Some(d.subrange(8, 8 + spec_entry_len(d, 6))));
}

/// Pixel dimensions agree between the configuration-record path and the
/// in-band Annex-B path whenever both capture the same SPS bytes: both
/// derive them from the same SPS parse.
pub proof fn lemma_pixel_dimension_paths_agree(record_data: Seq<u8>, nalu_data: Seq<u8>)
    requires
        spec_codec_from_record(record_data) is Some,
        spec_codec_from_nalu(nalu_data) is Ok,
        spec_codec_from_record(record_data).unwrap().sps == spec_codec_from_nalu(
            nalu_data,
        ).unwrap().sps,
    ensures
        spec_codec_from_record(record_data).unwrap().width == spec_codec_from_nalu(
            nalu_data,
        ).unwrap().width,
        spec_codec_from_record(record_data).unwrap().height == spec_codec_from_nalu(
            nalu_data,
        ).unwrap().height,
{
}

} // verus!

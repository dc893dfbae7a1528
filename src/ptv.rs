//! Reading synthesised-voice (PTV) instrument blocks.
use vstd::prelude::*;
use crate::codec::{le_u16, le_u32, read_u16, read_u32, v_r, vr_at};
use crate::io::{RPxToneIOError, copy_range, le_u64, read_u64};
use crate::woice::{
    RPxTonePTVCoordinatePoint, RPxTonePTVCoordinateWave, RPxTonePTVEnvelope,
    RPxTonePTVEnvelopePoint, RPxTonePTVOvertoneWave, RPxTonePTVOvertoneWaveTone,
    RPxTonePTVWaveType, RPxToneVoicePTV, RPxToneWoice, RPxToneWoicePTV, RPxToneWoiceType,
};

verus! {

/// The code `PTVOICE-` that opens a voice stream, as a little-endian `u64`.
pub const PTV_CODE: u64 = 0x2d45_4349_4f56_5450;

/// The newest voice-stream version understood.
pub const PTV_MAX_VERSION: u32 = 20060111;

/// What a wave holds: a coordinate wave's resolution and points, or an overtone wave's tones.
pub enum WaveModel {
    Coordinate(u32, Seq<RPxTonePTVCoordinatePoint>),
    Overtone(Seq<RPxTonePTVOvertoneWaveTone>),
}

/// What an envelope holds.
pub struct EnvelopeModel {
    pub fps: u32,
    pub head_num: u32,
    pub body_num: u32,
    pub tail_num: u32,
    pub points: Seq<RPxTonePTVEnvelopePoint>,
}

/// What a voice holds.
pub struct VoiceModel {
    pub basic_key: i32,
    pub volume: i32,
    pub pan: i32,
    pub tuning_bits: u32,
    pub voice_flags: u32,
    pub wave: WaveModel,
    pub envelope: Option<EnvelopeModel>,
}

pub open spec fn wave_model(w: &RPxTonePTVWaveType) -> WaveModel {
    match w {
        RPxTonePTVWaveType::Coordinate(c) => WaveModel::Coordinate(c.resolution, c.points@),
        RPxTonePTVWaveType::Overtone(o) => WaveModel::Overtone(o.tones@),
    }
}

pub open spec fn envelope_model(e: &RPxTonePTVEnvelope) -> EnvelopeModel {
    EnvelopeModel {
        fps: e.fps,
        head_num: e.head_num,
        body_num: e.body_num,
        tail_num: e.tail_num,
        points: e.points@,
    }
}

pub open spec fn voice_model(v: &RPxToneVoicePTV) -> VoiceModel {
    VoiceModel {
        basic_key: v.basic_key,
        volume: v.volume,
        pan: v.pan,
        tuning_bits: v.tuning_bits,
        voice_flags: v.voice_flags,
        wave: wave_model(&v.wave),
        envelope: match &v.envelope {
            Some(e) => Some(envelope_model(e)),
            None => None,
        },
    }
}

/// The models of `vs`.
pub open spec fn voice_models(vs: Seq<RPxToneVoicePTV>) -> Seq<VoiceModel> {
    Seq::new(vs.len(), |k: int| voice_model(&vs[k]))
}

/// The offset after the integer at `pos`.
pub open spec fn vr_next(s: Seq<u8>, pos: nat) -> Option<nat> {
    match vr_at(s, pos) {
        Some((_, p)) => Some(p),
        None => None,
    }
}

/// `k` pairs of integers from `pos`, with the offset after them.
pub open spec fn vr_pairs(s: Seq<u8>, pos: nat, k: nat) -> Option<(Seq<(u32, u32)>, nat)>
    decreases k,
{
    if k == 0 {
        Some((Seq::empty(), pos))
    } else {
        match vr_pairs(s, pos, (k - 1) as nat) {
            None => None,
            Some((ps, p)) => match vr_at(s, p) {
                None => None,
                Some((a, q1)) => match vr_at(s, q1) {
                    None => None,
                    Some((b, q2)) => Some((ps.push((a, b)), q2)),
                },
            },
        }
    }
}

proof fn lemma_vr_pairs_stays_none(s: Seq<u8>, pos: nat, k: nat, m: nat)
    requires
        k <= m,
        vr_pairs(s, pos, k) is None,
    ensures
        vr_pairs(s, pos, m) is None,
    decreases m - k,
{
    if k < m {
        lemma_vr_pairs_stays_none(s, pos, k, (m - 1) as nat);
    }
}

/// The low 16 bits of `v` as a signed number.
pub open spec fn low16(v: u32) -> i16 {
    (if v % 0x1_0000 >= 0x8000 { v % 0x1_0000 - 0x1_0000 } else { (v % 0x1_0000) as int }) as i16
}

/// A tone stored as the pair (frequency, amplitude): the frequency's low byte and the
/// amplitude's low 16 bits.
pub open spec fn tone_of(p: (u32, u32)) -> RPxTonePTVOvertoneWaveTone {
    RPxTonePTVOvertoneWaveTone { frequency: (p.0 % 0x100) as u8, amplitude: low16(p.1) }
}

pub open spec fn env_point_of(p: (u32, u32)) -> RPxTonePTVEnvelopePoint {
    RPxTonePTVEnvelopePoint { x: p.0, y: p.1 }
}

/// A coordinate point stored as two bytes at `q`: `x` unsigned, `y` signed.
pub open spec fn point_at(s: Seq<u8>, q: int) -> RPxTonePTVCoordinatePoint {
    RPxTonePTVCoordinatePoint {
        x: s[q] as u32,
        y: (if s[q + 1] >= 128 { s[q + 1] - 256 } else { s[q + 1] as int }) as i32,
    }
}

/// The wave at `pos`, with the offset after it: its type, then for coordinates a count, a
/// resolution and two bytes per point; for overtones a count and two integers per tone.
pub open spec fn wave_value(s: Seq<u8>, pos: nat) -> Option<(WaveModel, nat)> {
    match vr_at(s, pos) {
        None => None,
        Some((wave_type, p1)) => if wave_type == 0 {
            match vr_at(s, p1) {
                None => None,
                Some((num_points, p2)) => match vr_at(s, p2) {
                    None => None,
                    Some((resolution, p3)) => if p3 + 2 * num_points <= s.len() {
                        Some(
                            (
                                WaveModel::Coordinate(
                                    resolution,
                                    Seq::new(num_points as nat, |k: int| point_at(s, p3 + 2 * k)),
                                ),
                                (p3 + 2 * num_points) as nat,
                            ),
                        )
                    } else {
                        None
                    },
                },
            }
        } else if wave_type == 1 {
            match vr_at(s, p1) {
                None => None,
                Some((num_tones, p2)) => match vr_pairs(s, p2, num_tones as nat) {
                    None => None,
                    Some((ps, q)) => Some((WaveModel::Overtone(ps.map_values(|p: (u32, u32)| tone_of(p))), q)),
                },
            }
        } else {
            None
        },
    }
}

/// The envelope at `pos`, with the offset after it: frames per second, the three counts,
/// then two integers per point.
pub open spec fn envelope_value(s: Seq<u8>, pos: nat) -> Option<(EnvelopeModel, nat)> {
    match vr_at(s, pos) {
        None => None,
        Some((fps, p1)) => match vr_at(s, p1) {
            None => None,
            Some((head, p2)) => match vr_at(s, p2) {
                None => None,
                Some((body, p3)) => match vr_at(s, p3) {
                    None => None,
                    Some((tail, p4)) => match vr_pairs(s, p4, (head + body + tail) as nat) {
                        None => None,
                        Some((ps, q)) => Some(
                            (
                                EnvelopeModel {
                                    fps,
                                    head_num: head,
                                    body_num: body,
                                    tail_num: tail,
                                    points: ps.map_values(|p: (u32, u32)| env_point_of(p)),
                                },
                                q,
                            ),
                        ),
                    },
                },
            },
        },
    }
}

/// The rest of a voice after its six integers: a wave and an envelope as the data flags say.
pub open spec fn voice_tail(s: Seq<u8>, p6: nat, data_flags: u32) -> Option<(Option<WaveModel>, Option<EnvelopeModel>, nat)> {
    let w = if data_flags % 2 == 1 {
        match wave_value(s, p6) {
            Some((wm, q)) => Some((Some(wm), q)),
            None => None,
        }
    } else {
        Some((None, p6))
    };
    match w {
        None => None,
        Some((wm, q)) => if data_flags / 2 % 2 == 1 {
            match envelope_value(s, q) {
                Some((em, q2)) => Some((wm, Some(em), q2)),
                None => None,
            }
        } else {
            Some((wm, None, q))
        },
    }
}

/// The voice at `pos`, with the offset after it: key, volume, pan, tuning bits, voice flags
/// (low three bits only) and data flags (low two bits only), then its wave and envelope. A
/// voice without a wave is dropped (`None`).
#[verifier::opaque]
pub open spec fn voice_value(s: Seq<u8>, pos: nat) -> Option<(Option<VoiceModel>, nat)> {
    match vr_at(s, pos) {
        None => None,
        Some((basic_key, p1)) => match vr_at(s, p1) {
            None => None,
            Some((volume, p2)) => match vr_at(s, p2) {
                None => None,
                Some((pan, p3)) => match vr_at(s, p3) {
                    None => None,
                    Some((tuning_bits, p4)) => match vr_at(s, p4) {
                        None => None,
                        Some((voice_flags, p5)) => match vr_at(s, p5) {
                            None => None,
                            Some((data_flags, p6)) => if voice_flags >= 8 || data_flags >= 4 {
                                None
                            } else {
                                match voice_tail(s, p6, data_flags) {
                                    None => None,
                                    Some((wm, em, q)) => match wm {
                                        None => Some((None, q)),
                                        Some(wave) => Some(
                                            (
                                                Some(
                                                    VoiceModel {
                                                        basic_key: basic_key as i32,
                                                        volume: volume as i32,
                                                        pan: pan as i32,
                                                        tuning_bits,
                                                        voice_flags,
                                                        wave,
                                                        envelope: em,
                                                    },
                                                ),
                                                q,
                                            ),
                                        ),
                                    },
                                }
                            },
                        },
                    },
                },
            },
        },
    }
}

/// The voices kept from `k` stored voices from `pos`, with the offset after them.
#[verifier::opaque]
pub open spec fn voices_value(s: Seq<u8>, pos: nat, k: nat) -> Option<(Seq<VoiceModel>, nat)>
    decreases k,
{
    if k == 0 {
        Some((Seq::empty(), pos))
    } else {
        match voices_value(s, pos, (k - 1) as nat) {
            None => None,
            Some((vs, p)) => match voice_value(s, p) {
                None => None,
                Some((None, q)) => Some((vs, q)),
                Some((Some(v), q)) => Some((vs.push(v), q)),
            },
        }
    }
}

proof fn lemma_voices_value_step(s: Seq<u8>, pos: nat, k: nat, vs: Seq<VoiceModel>, p: nat)
    requires
        voices_value(s, pos, k) == Some((vs, p)),
    ensures
        voices_value(s, pos, k + 1) == match voice_value(s, p) {
            None => None,
            Some((None, q)) => Some((vs, q)),
            Some((Some(v), q)) => Some((vs.push(v), q)),
        },
{
    reveal(voices_value);
}

proof fn lemma_voices_value_zero(s: Seq<u8>, pos: nat)
    ensures
        voices_value(s, pos, 0) == Some((Seq::<VoiceModel>::empty(), pos)),
{
    reveal(voices_value);
}

proof fn lemma_voices_value_stays_none(s: Seq<u8>, pos: nat, k: nat, m: nat)
    requires
        k <= m,
        voices_value(s, pos, k) is None,
    ensures
        voices_value(s, pos, m) is None,
    decreases m - k,
{
    reveal(voices_value);
    if k < m {
        lemma_voices_value_stays_none(s, pos, k, (m - 1) as nat);
    }
}

/// The voice stream of a PTV block: after the 12-byte header, the code, the version and the
/// byte total, an integer, two zero integers, a voice count and that many voices.
pub open spec fn ptv_stream(s: Seq<u8>) -> Option<(Seq<VoiceModel>, nat)> {
    if s.len() >= 28 && le_u16(s, 2) == 0 && le_u64(s, 12) == PTV_CODE && le_u32(s, 20)
        <= PTV_MAX_VERSION {
        match vr_next(s, 28) {
            None => None,
            Some(p1) => match vr_at(s, p1) {
                None => None,
                Some((work1, p2)) => match vr_at(s, p2) {
                    None => None,
                    Some((work2, p3)) => if work1 == 0 && work2 == 0 {
                        match vr_at(s, p3) {
                            None => None,
                            Some((voice_num, p4)) => voices_value(s, p4, voice_num as nat),
                        }
                    } else {
                        None
                    },
                },
            },
        }
    } else {
        None
    }
}

/// Whether `s` is a well-formed PTV block.
pub open spec fn ptv_ok(s: Seq<u8>) -> bool {
    ptv_stream(s) is Some
}

/// The voices a well-formed PTV block holds, those without a wave dropped.
pub open spec fn ptv_voices(s: Seq<u8>) -> Seq<VoiceModel> {
    match ptv_stream(s) {
        Some((vs, _)) => vs,
        None => Seq::empty(),
    }
}

/// One variable-length integer at `pos`, with the offset after it.
fn read_vr(b: &[u8], pos: usize) -> (r: Result<(u32, usize), RPxToneIOError>)
    ensures
        r is Ok <==> vr_at(b@, pos as nat) is Some,
        r matches Ok((v, p)) ==> vr_at(b@, pos as nat) == Some((v, p as nat)) && p <= b@.len(),
        r matches Err(e) ==> e is UnexpectedEnd,
{
    match v_r(b, pos) {
        Some((v, p)) => {
            proof {
                crate::codec::lemma_vr_at_bound(b@, pos as nat);
            }
            Ok((v, p))
        },
        None => Err(RPxToneIOError::UnexpectedEnd),
    }
}

/// A signed byte from its bit pattern.
fn to_i8_value(b: u8) -> (r: i32)
    ensures
        r == (if b >= 128 { b - 256 } else { b as int }),
{
    if b >= 128 {
        b as i32 - 256
    } else {
        b as i32
    }
}

/// The low 16 bits of `v` as a signed number.
fn low_i16(v: u32) -> (r: i16)
    ensures
        r == low16(v),
{
    let low = v % 0x1_0000;
    if low >= 0x8000 {
        (low as i32 - 0x1_0000) as i16
    } else {
        low as i16
    }
}

/// Reads `k` pairs of integers at `pos`, each pair mapped through `tone_of`.
fn parse_tones(b: &[u8], pos: usize, k: u32) -> (r: Result<(Vec<RPxTonePTVOvertoneWaveTone>, usize), RPxToneIOError>)
    requires
        pos <= b@.len(),
    ensures
        r is Ok <==> vr_pairs(b@, pos as nat, k as nat) is Some,
        r matches Ok((ts, p)) ==> {
            let (ps, q) = vr_pairs(b@, pos as nat, k as nat)->0;
            ts@ == ps.map_values(|x: (u32, u32)| tone_of(x)) && p == q && p <= b@.len()
        },
{
    let mut at = pos;
    let mut tones: Vec<RPxTonePTVOvertoneWaveTone> = Vec::new();
    let mut i: u32 = 0;
    let ghost mut ps: Seq<(u32, u32)> = Seq::empty();
    while i < k
        invariant
            i <= k,
            at <= b@.len(),
            ps.len() == i,
            vr_pairs(b@, pos as nat, i as nat) == Some((ps, at as nat)),
            tones@ == ps.map_values(|x: (u32, u32)| tone_of(x)),
        decreases k - i,
    {
        let first = read_vr(b, at);
        if first.is_err() {
            proof {
                lemma_vr_pairs_stays_none(b@, pos as nat, (i + 1) as nat, k as nat);
            }
            return Err(RPxToneIOError::UnexpectedEnd);
        }
        let (frequency, q1) = first.unwrap();
        let second = read_vr(b, q1);
        if second.is_err() {
            proof {
                lemma_vr_pairs_stays_none(b@, pos as nat, (i + 1) as nat, k as nat);
            }
            return Err(RPxToneIOError::UnexpectedEnd);
        }
        let (amplitude, q2) = second.unwrap();
        tones.push(
            RPxTonePTVOvertoneWaveTone { frequency: (frequency % 0x100) as u8, amplitude: low_i16(amplitude) },
        );
        proof {
            ps = ps.push((frequency, amplitude));
            assert(tones@ =~= ps.map_values(|x: (u32, u32)| tone_of(x)));
        }
        at = q2;
        i = i + 1;
    }
    Ok((tones, at))
}

/// Reads `k` pairs of integers at `pos` as envelope points.
fn parse_env_points(b: &[u8], pos: usize, k: u64) -> (r: Result<(Vec<RPxTonePTVEnvelopePoint>, usize), RPxToneIOError>)
    requires
        pos <= b@.len(),
    ensures
        r is Ok <==> vr_pairs(b@, pos as nat, k as nat) is Some,
        r matches Ok((ts, p)) ==> {
            let (ps, q) = vr_pairs(b@, pos as nat, k as nat)->0;
            ts@ == ps.map_values(|x: (u32, u32)| env_point_of(x)) && p == q && p <= b@.len()
                && ts@.len() == k
        },
{
    let mut at = pos;
    let mut points: Vec<RPxTonePTVEnvelopePoint> = Vec::new();
    let mut i: u64 = 0;
    let ghost mut ps: Seq<(u32, u32)> = Seq::empty();
    while i < k
        invariant
            i <= k,
            at <= b@.len(),
            ps.len() == i,
            vr_pairs(b@, pos as nat, i as nat) == Some((ps, at as nat)),
            points@ == ps.map_values(|x: (u32, u32)| env_point_of(x)),
        decreases k - i,
    {
        let first = read_vr(b, at);
        if first.is_err() {
            proof {
                lemma_vr_pairs_stays_none(b@, pos as nat, (i + 1) as nat, k as nat);
            }
            return Err(RPxToneIOError::UnexpectedEnd);
        }
        let (x, q1) = first.unwrap();
        let second = read_vr(b, q1);
        if second.is_err() {
            proof {
                lemma_vr_pairs_stays_none(b@, pos as nat, (i + 1) as nat, k as nat);
            }
            return Err(RPxToneIOError::UnexpectedEnd);
        }
        let (y, q2) = second.unwrap();
        points.push(RPxTonePTVEnvelopePoint { x, y });
        proof {
            ps = ps.push((x, y));
            assert(points@ =~= ps.map_values(|x: (u32, u32)| env_point_of(x)));
        }
        at = q2;
        i = i + 1;
    }
    Ok((points, at))
}

/// Reads a wave at `pos`: a type, then coordinate points or overtones.
fn parse_wave(b: &[u8], pos: usize) -> (r: Result<(RPxTonePTVWaveType, usize), RPxToneIOError>)
    ensures
        r is Ok <==> wave_value(b@, pos as nat) is Some,
        r matches Ok((w, p)) ==> wave_value(b@, pos as nat) == Some((wave_model(&w), p as nat))
            && p <= b@.len(),
{
    let n = b.len();
    let (wave_type, p0) = read_vr(b, pos)?;
    if wave_type == 0 {
        let (num_points, p1) = read_vr(b, p0)?;
        let (resolution, p2) = read_vr(b, p1)?;
        let mut at = p2;
        let mut points: Vec<RPxTonePTVCoordinatePoint> = Vec::new();
        let mut i: u32 = 0;
        while i < num_points
            invariant
                n == b@.len(),
                at <= b@.len(),
                i <= num_points,
                at == p2 + 2 * i,
                vr_at(b@, pos as nat) == Some((wave_type, p0 as nat)),
                wave_type == 0,
                vr_at(b@, p0 as nat) == Some((num_points, p1 as nat)),
                vr_at(b@, p1 as nat) == Some((resolution, p2 as nat)),
                points@ =~= Seq::new(i as nat, |k: int| point_at(b@, p2 + 2 * k)),
            decreases num_points - i,
        {
            if n - at < 2 {
                return Err(RPxToneIOError::UnexpectedEnd);
            }
            let x = b[at] as u32;
            let y = to_i8_value(b[at + 1]);
            points.push(RPxTonePTVCoordinatePoint::new(x, y));
            at = at + 2;
            i = i + 1;
            assert(points@ =~= Seq::new(i as nat, |k: int| point_at(b@, p2 + 2 * k)));
        }
        Ok((RPxTonePTVWaveType::Coordinate(RPxTonePTVCoordinateWave { resolution, points }), at))
    } else if wave_type == 1 {
        let (num_tones, p1) = read_vr(b, p0)?;
        let (tones, at) = parse_tones(b, p1, num_tones)?;
        Ok((RPxTonePTVWaveType::Overtone(RPxTonePTVOvertoneWave { tones }), at))
    } else {
        Err(RPxToneIOError::InvalidVoice)
    }
}

/// Reads an envelope at `pos`: frames per second, the head, body and tail point counts,
/// then all their points.
fn parse_envelope(b: &[u8], pos: usize) -> (r: Result<(RPxTonePTVEnvelope, usize), RPxToneIOError>)
    ensures
        r is Ok <==> envelope_value(b@, pos as nat) is Some,
        r matches Ok((env, p)) ==> envelope_value(b@, pos as nat) == Some((envelope_model(&env), p as nat))
            && p <= b@.len() && env.points@.len() == env.head_num + env.body_num + env.tail_num,
{
    let (fps, p1) = read_vr(b, pos)?;
    let (head_num, p2) = read_vr(b, p1)?;
    let (body_num, p3) = read_vr(b, p2)?;
    let (tail_num, p4) = read_vr(b, p3)?;
    let num: u64 = head_num as u64 + body_num as u64 + tail_num as u64;
    let (points, at) = parse_env_points(b, p4, num)?;
    Ok((RPxTonePTVEnvelope { fps, head_num, body_num, tail_num, points }, at))
}

/// Reads one voice at `pos`; the voice is `None` when it carries no wave.
fn parse_voice(b: &[u8], pos: usize) -> (r: Result<(Option<RPxToneVoicePTV>, usize), RPxToneIOError>)
    ensures
        r is Ok <==> voice_value(b@, pos as nat) is Some,
        r matches Ok((ov, p)) ==> p <= b@.len() && voice_value(b@, pos as nat) == Some(
            (
                match ov {
                    Some(v) => Some(voice_model(&v)),
                    None => None,
                },
                p as nat,
            ),
        ),
{
    reveal(voice_value);
    let (basic_key, p1) = read_vr(b, pos)?;
    let (volume, p2) = read_vr(b, p1)?;
    let (pan, p3) = read_vr(b, p2)?;
    let (tuning_bits, p4) = read_vr(b, p3)?;
    let (voice_flags, p5) = read_vr(b, p4)?;
    let (data_flags, p6) = read_vr(b, p5)?;
    if voice_flags >= 8 || data_flags >= 4 {
        return Err(RPxToneIOError::ReservedNotZero);
    }
    let mut at = p6;
    let mut wave: Option<RPxTonePTVWaveType> = None;
    if data_flags % 2 == 1 {
        let (w, q) = parse_wave(b, at)?;
        wave = Some(w);
        at = q;
    }
    let mut envelope: Option<RPxTonePTVEnvelope> = None;
    if data_flags / 2 % 2 == 1 {
        let (e, q) = parse_envelope(b, at)?;
        envelope = Some(e);
        at = q;
    }
    match wave {
        Some(wave) => Ok(
            (
                Some(
                    RPxToneVoicePTV {
                        basic_key: basic_key as i32,
                        volume: volume as i32,
                        pan: pan as i32,
                        tuning_bits,
                        voice_flags,
                        wave,
                        envelope,
                    },
                ),
                at,
            ),
        ),
        None => Ok((None, at)),
    }
}

/// Reads a PTV instrument block of `size` bytes at `pos`: a 12-byte header whose second
/// field is reserved, then a voice stream opened by `PTVOICE-` and a version no newer than
/// the one understood. Voices without a wave are dropped.
#[verifier::rlimit(40)]
pub fn parse_ptv(p: &[u8], pos: usize, size: usize) -> (r: Result<RPxToneWoice, RPxToneIOError>)
    requires
        pos + size <= p@.len(),
    ensures
        r is Ok <==> ptv_ok(p@.subrange(pos as int, pos + size)),
        r matches Ok(w) ==> (w.woice_type matches RPxToneWoiceType::PTV(ptv) && voice_models(ptv.voices@)
            == ptv_voices(p@.subrange(pos as int, pos + size))),
{
    let _len = p.len();
    let block = copy_range(p, pos, pos + size);
    let b = block.as_slice();
    assert(b@ == p@.subrange(pos as int, pos + size));
    if b.len() < 28 {
        return Err(RPxToneIOError::UnexpectedEnd);
    }
    let rrr = read_u16(b, 2).unwrap();
    if rrr != 0 {
        return Err(RPxToneIOError::ReservedNotZero);
    }
    let code = read_u64(b, 12).unwrap();
    if code != PTV_CODE {
        return Err(RPxToneIOError::InvalidVoice);
    }
    let version = read_u32(b, 20).unwrap();
    if version > PTV_MAX_VERSION {
        return Err(RPxToneIOError::InvalidVoice);
    }
    let (x3x_basic_key, p1) = read_vr(b, 28)?;
    let (work1, p2) = read_vr(b, p1)?;
    let (work2, p3) = read_vr(b, p2)?;
    if work1 != 0 || work2 != 0 {
        return Err(RPxToneIOError::ReservedNotZero);
    }
    let (voice_num, p4) = read_vr(b, p3)?;
    let mut at = p4;
    proof {
        lemma_voices_value_zero(b@, p4 as nat);
    }
    let mut voices: Vec<RPxToneVoicePTV> = Vec::new();
    let mut i: u32 = 0;
    while i < voice_num
        invariant
            at <= b@.len(),
            i <= voice_num,
            voices_value(b@, p4 as nat, i as nat) == Some((voice_models(voices@), at as nat)),
            b@ == p@.subrange(pos as int, pos + size),
            ptv_stream(b@) == voices_value(b@, p4 as nat, voice_num as nat),
        decreases voice_num - i,
    {
        let step = parse_voice(b, at);
        proof {
            lemma_voices_value_step(b@, p4 as nat, i as nat, voice_models(voices@), at as nat);
        }
        if step.is_err() {
            proof {
                lemma_voices_value_stays_none(b@, p4 as nat, (i + 1) as nat, voice_num as nat);
            }
            return Err(RPxToneIOError::InvalidVoice);
        }
        let (v, q) = step.unwrap();
        let ghost before = voices@;
        if let Some(v) = v {
            voices.push(v);
            assert(voice_models(voices@) =~= voice_models(before).push(voice_model(&v)));
        }
        at = q;
        i = i + 1;
    }
    Ok(RPxToneWoice { name: String::new(), woice_type: RPxToneWoiceType::PTV(RPxToneWoicePTV { voices }) })
}

} // verus!

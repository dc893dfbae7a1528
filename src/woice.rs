//! Instruments ("woices") and the voices they are made of.
use vstd::prelude::*;

verus! {

/// The first channel of interleaved samples: every sample of a mono stream, every other
/// one of a stereo stream.
pub open spec fn first_channel(channels: u8, s: Seq<i16>) -> Seq<i16> {
    if channels == 2 {
        Seq::new(s.len() / 2, |i: int| s[2 * i])
    } else {
        s
    }
}

/// The bytes one frame of PCM takes, for the supported formats.
pub open spec fn frame_bytes(bits_per_sample: u8, channels: u8) -> nat {
    (bits_per_sample as nat / 8) * channels as nat
}

/// The PCM formats voices can hold: 8 or 16 bits, mono or stereo.
pub open spec fn pcm_format_ok(bits_per_sample: u8, channels: u8) -> bool {
    (bits_per_sample == 8 || bits_per_sample == 16) && (channels == 1 || channels == 2)
}

/// A voice of raw PCM samples.
#[derive(Debug)]
pub struct RPxToneVoicePCM {
    pub basic_key: i32,
    pub volume: i32,
    pub pan: i32,
    /// Bit pattern of the `f32` tuning.
    pub tuning_bits: u32,
    pub flag_loop: bool,
    pub flag_smooth: bool,
    pub flag_beat_fit: bool,
    pub channels: u8,
    pub samples_per_second: u32,
    pub bits_per_sample: u8,
    pub data: Vec<u8>,
    pub sample_num: u32,
}

#[derive(Debug, Clone, Copy, PartialEq, Eq, Structural)]
pub enum RPxToneVoicePCMError {
    InvalidPCMConfig { bits_per_sample: u8, channels: u8 },
}

/// Where a voice of `len` frames reads for frame position `pos`: wrapped when it loops,
/// nowhere past its end when it does not.
pub open spec fn frame_index(looped: bool, len: nat, pos: nat) -> Option<nat> {
    if len == 0 {
        None
    } else if looped {
        Some(pos % len)
    } else if pos < len {
        Some(pos)
    } else {
        None
    }
}

/// A voice that does not loop reads nothing once past its last frame, and a looping voice
/// always reads a frame within it.
pub proof fn lemma_frame_index_bounds(looped: bool, len: nat, pos: nat)
    ensures
        !looped && pos >= len ==> frame_index(looped, len, pos) is None,
        frame_index(looped, len, pos) matches Some(i) ==> i < len,
        looped && len > 0 ==> frame_index(looped, len, pos) is Some,
{
}

/// Little-endian signed 16-bit value at `pos`.
pub open spec fn le_i16(s: Seq<u8>, pos: int) -> int {
    let u = s[pos] as int + 256 * s[pos + 1] as int;
    if u >= 0x8000 {
        u - 0x1_0000
    } else {
        u
    }
}

impl RPxToneVoicePCM {
    pub open spec fn wf(&self) -> bool {
        &&& pcm_format_ok(self.bits_per_sample, self.channels)
        &&& self.data@.len() <= u32::MAX
        &&& self.sample_num == self.data@.len() / frame_bytes(self.bits_per_sample, self.channels)
    }

    /// A PCM voice of `data`; fails unless the format is 8 or 16 bits, mono or stereo.
    pub fn new(
        basic_key: i32,
        volume: i32,
        pan: i32,
        tuning_bits: u32,
        channels: u8,
        samples_per_second: u32,
        bits_per_sample: u8,
        data: Vec<u8>,
        flag_loop: bool,
        flag_smooth: bool,
        flag_beat_fit: bool,
    ) -> (r: Result<RPxToneVoicePCM, RPxToneVoicePCMError>)
        requires
            data@.len() <= u32::MAX,
        ensures
            r is Ok <==> pcm_format_ok(bits_per_sample, channels),
            r is Err ==> r == Err::<RPxToneVoicePCM, _>(
                RPxToneVoicePCMError::InvalidPCMConfig { bits_per_sample, channels },
            ),
            r matches Ok(v) ==> {
                &&& v.wf()
                &&& v.basic_key == basic_key && v.volume == volume && v.pan == pan
                &&& v.tuning_bits == tuning_bits && v.channels == channels
                &&& v.samples_per_second == samples_per_second
                &&& v.bits_per_sample == bits_per_sample && v.data@ == data@
                &&& v.flag_loop == flag_loop && v.flag_smooth == flag_smooth
                &&& v.flag_beat_fit == flag_beat_fit
            },
    {
        if !((bits_per_sample == 8 || bits_per_sample == 16) && (channels == 1 || channels == 2)) {
            return Err(RPxToneVoicePCMError::InvalidPCMConfig { bits_per_sample, channels });
        }
        let per_sample: usize = if bits_per_sample == 8 {
            1
        } else {
            2
        };
        let fb: usize = per_sample * channels as usize;
        assert(fb == frame_bytes(bits_per_sample, channels));
        let sample_num = (data.len() / fb) as u32;
        Ok(RPxToneVoicePCM {
            basic_key,
            volume,
            pan,
            tuning_bits,
            flag_loop,
            flag_smooth,
            flag_beat_fit,
            channels,
            samples_per_second,
            bits_per_sample,
            data,
            sample_num,
        })
    }

    /// The frame read for frame position `pos`; a voice that does not loop gives nothing
    /// past its last frame.
    pub fn frame_at(&self, pos: u64) -> (r: Option<u32>)
        ensures
            match frame_index(self.flag_loop, self.sample_num as nat, pos as nat) {
                Some(i) => r == Some(i as u32),
                None => r is None,
            },
    {
        if self.sample_num == 0 {
            None
        } else if self.flag_loop {
            Some((pos % self.sample_num as u64) as u32)
        } else if pos < self.sample_num as u64 {
            Some(pos as u32)
        } else {
            None
        }
    }

    /// The first channel's stored value of frame `frame`: the unsigned byte of 8-bit PCM,
    /// the signed little-endian word of 16-bit PCM.
    pub fn raw_sample(&self, frame: u32) -> (r: i32)
        requires
            self.wf(),
            frame < self.sample_num,
        ensures
            self.bits_per_sample == 8 ==> r == self.data@[frame * frame_bytes(
                self.bits_per_sample,
                self.channels,
            )],
            self.bits_per_sample == 16 ==> r == le_i16(
                self.data@,
                frame * frame_bytes(self.bits_per_sample, self.channels),
            ),
    {
        let fb: usize = (self.bits_per_sample / 8) as usize * self.channels as usize;
        proof {
            let n = self.data@.len();
            let f = frame as nat;
            let b = fb as nat;
            assert(f < n / b);
            assert((f + 1) * b <= n) by (nonlinear_arith)
                requires
                    f < n / b,
                    b > 0,
            ;
            assert(f * b + b <= n) by (nonlinear_arith)
                requires
                    (f + 1) * b <= n,
            ;
        }
        let at: usize = frame as usize * fb;
        if self.bits_per_sample == 8 {
            self.data[at] as i32
        } else {
            let u: i32 = self.data[at] as i32 + 256 * self.data[at + 1] as i32;
            if u >= 0x8000 {
                u - 0x1_0000
            } else {
                u
            }
        }
    }
}

#[derive(Debug, Clone, Copy, PartialEq, Eq, Structural)]
pub struct RPxTonePTVCoordinatePoint {
    pub x: u32,
    pub y: i32,
}

impl RPxTonePTVCoordinatePoint {
    pub fn new(x: u32, y: i32) -> (r: RPxTonePTVCoordinatePoint)
        ensures
            r == (RPxTonePTVCoordinatePoint { x, y }),
    {
        RPxTonePTVCoordinatePoint { x, y }
    }
}

/// A point of a coordinate wave.
pub trait PTVCoordinateWavePoint {
    spec fn x_spec(&self) -> u32;

    spec fn y_spec(&self) -> i32;

    fn x(&self) -> (r: u32)
        ensures
            r == self.x_spec(),
    ;

    fn y(&self) -> (r: i32)
        ensures
            r == self.y_spec(),
    ;
}

impl PTVCoordinateWavePoint for RPxTonePTVCoordinatePoint {
    open spec fn x_spec(&self) -> u32 {
        self.x
    }

    open spec fn y_spec(&self) -> i32 {
        self.y
    }

    fn x(&self) -> (r: u32) {
        self.x
    }

    fn y(&self) -> (r: i32) {
        self.y
    }
}

/// A wave given by points over a cycle.
pub trait PTVCoordinateWave {
    spec fn resolution_spec(&self) -> u32;

    spec fn points_spec(&self) -> Seq<RPxTonePTVCoordinatePoint>;

    fn resolution(&self) -> (r: u32)
        ensures
            r == self.resolution_spec(),
    ;

    fn points(&self) -> (r: &Vec<RPxTonePTVCoordinatePoint>)
        ensures
            r@ == self.points_spec(),
    ;
}

impl PTVCoordinateWave for RPxTonePTVCoordinateWave {
    open spec fn resolution_spec(&self) -> u32 {
        self.resolution
    }

    open spec fn points_spec(&self) -> Seq<RPxTonePTVCoordinatePoint> {
        self.points@
    }

    fn resolution(&self) -> (r: u32) {
        self.resolution
    }

    fn points(&self) -> (r: &Vec<RPxTonePTVCoordinatePoint>) {
        &self.points
    }
}

/// A closed polyline over one cycle `resolution` wide.
#[derive(Debug)]
pub struct RPxTonePTVCoordinateWave {
    pub resolution: u32,
    pub points: Vec<RPxTonePTVCoordinatePoint>,
}

/// Index of the first point after `i` (the number of points when none is).
pub open spec fn first_after(points: Seq<RPxTonePTVCoordinatePoint>, i: u32) -> int {
    if exists|c: int| 0 <= c < points.len() && points[c].x > i {
        choose|c: int|
            0 <= c < points.len() && points[c].x > i && forall|d: int|
                0 <= d < c ==> points[d].x <= i
    } else {
        points.len() as int
    }
}

impl RPxTonePTVCoordinateWave {
    /// The two points, as `(x, y)` pairs, that bound position `i` of the closed polyline:
    /// the last point at or before `i` and the next one. Past the last point the next one is
    /// the first point shifted on by `resolution`; before the first point the previous one is
    /// the last point shifted back by `resolution`.
    pub fn segment(&self, i: u32) -> (r: Option<((i64, i32), (i64, i32))>)
        ensures
            self.points@.len() == 0 <==> r is None,
            r matches Some((p1, p2)) ==> {
                let ps = self.points@;
                let c = first_after(ps, i);
                let res = self.resolution as int;
                &&& 0 <= c <= ps.len()
                &&& (forall|d: int| 0 <= d < c ==> ps[d].x <= i)
                &&& (c < ps.len() ==> ps[c].x > i)
                &&& (c == ps.len() ==> p1 == (ps[c - 1].x as i64, ps[c - 1].y) && p2 == (
                    (ps[0].x + res) as i64,
                    ps[0].y,
                ))
                &&& (0 < c < ps.len() ==> p1 == (ps[c - 1].x as i64, ps[c - 1].y) && p2 == (
                    ps[c].x as i64,
                    ps[c].y,
                ))
                &&& (c == 0 ==> p1 == ((ps[ps.len() - 1].x - res) as i64, ps[ps.len() - 1].y) && p2
                    == (ps[0].x as i64, ps[0].y))
            },
    {
        let n = self.points.len();
        if n == 0 {
            return None;
        }
        let mut c: usize = 0;
        while c < n && self.points[c].x <= i
            invariant
                n == self.points@.len(),
                c <= n,
                forall|d: int| 0 <= d < c ==> self.points@[d].x <= i,
            decreases n - c,
        {
            c = c + 1;
        }
        proof {
            let ps = self.points@;
            if c < n {
                assert(ps[c as int].x > i);
                assert(exists|k: int| 0 <= k < ps.len() && ps[k].x > i);
                let k = first_after(ps, i);
                if k < c {
                    assert(ps[k].x <= i);
                }
                if k > c {
                    assert(ps[c as int].x <= i);
                }
            } else {
                assert(!exists|k: int| 0 <= k < ps.len() && ps[k].x > i);
            }
        }
        let res = self.resolution as i64;
        if c == n {
            let last = self.points[c - 1];
            Some(((last.x as i64, last.y), (self.points[0].x as i64 + res, self.points[0].y)))
        } else if c > 0 {
            let a = self.points[c - 1];
            let b = self.points[c];
            Some(((a.x as i64, a.y), (b.x as i64, b.y)))
        } else {
            let last = self.points[n - 1];
            Some(((last.x as i64 - res, last.y), (self.points[0].x as i64, self.points[0].y)))
        }
    }
}

#[derive(Debug, Clone, Copy, PartialEq, Eq, Structural)]
pub struct RPxTonePTVOvertoneWaveTone {
    pub frequency: u8,
    pub amplitude: i16,
}

/// One overtone: a whole multiple of the base frequency and its amplitude.
pub trait PTVOvertoneWaveTone {
    spec fn frequency_spec(&self) -> u8;

    spec fn amplitude_spec(&self) -> i16;

    fn frequency(&self) -> (r: u8)
        ensures
            r == self.frequency_spec(),
    ;

    fn amplitude(&self) -> (r: i16)
        ensures
            r == self.amplitude_spec(),
    ;
}

impl PTVOvertoneWaveTone for RPxTonePTVOvertoneWaveTone {
    open spec fn frequency_spec(&self) -> u8 {
        self.frequency
    }

    open spec fn amplitude_spec(&self) -> i16 {
        self.amplitude
    }

    fn frequency(&self) -> (r: u8) {
        self.frequency
    }

    fn amplitude(&self) -> (r: i16) {
        self.amplitude
    }
}

/// A wave given as a sum of overtones.
pub trait PTVOvertoneWave {
    spec fn tones_spec(&self) -> Seq<RPxTonePTVOvertoneWaveTone>;

    fn tones(&self) -> (r: &Vec<RPxTonePTVOvertoneWaveTone>)
        ensures
            r@ == self.tones_spec(),
    ;
}

impl PTVOvertoneWave for RPxTonePTVOvertoneWave {
    open spec fn tones_spec(&self) -> Seq<RPxTonePTVOvertoneWaveTone> {
        self.tones@
    }

    fn tones(&self) -> (r: &Vec<RPxTonePTVOvertoneWaveTone>) {
        &self.tones
    }
}

/// A sum of sine overtones.
#[derive(Debug)]
pub struct RPxTonePTVOvertoneWave {
    pub tones: Vec<RPxTonePTVOvertoneWaveTone>,
}

#[derive(Debug)]
pub enum RPxTonePTVWaveType {
    Coordinate(RPxTonePTVCoordinateWave),
    Overtone(RPxTonePTVOvertoneWave),
}

#[derive(Debug, Clone, Copy, PartialEq, Eq, Structural)]
pub struct RPxTonePTVEnvelopePoint {
    pub x: u32,
    pub y: u32,
}

/// An envelope: `head_num` points of attack, `body_num` of sustain, `tail_num` of release,
/// at `fps` points per second.
#[derive(Debug)]
pub struct RPxTonePTVEnvelope {
    pub fps: u32,
    pub head_num: u32,
    pub body_num: u32,
    pub tail_num: u32,
    pub points: Vec<RPxTonePTVEnvelopePoint>,
}

/// A voice synthesised from one cycle of a wave.
#[derive(Debug)]
pub struct RPxToneVoicePTV {
    pub basic_key: i32,
    pub volume: i32,
    pub pan: i32,
    pub tuning_bits: u32,
    pub voice_flags: u32,
    pub wave: RPxTonePTVWaveType,
    pub envelope: Option<RPxTonePTVEnvelope>,
}

impl RPxToneVoicePTV {
    /// The release time of the envelope in samples at `sample_rate`: the tail point's
    /// `x` in envelope frames converted to samples; zero without a tail.
    pub fn release_samples(&self, sample_rate: u32) -> (r: u64)
        ensures
            match &self.envelope {
                Some(env) => if env.tail_num > 0 && env.fps > 0 && env.head_num < env.points@.len() {
                    r == env.points@[env.head_num as int].x as nat * sample_rate as nat / env.fps as nat
                } else {
                    r == 0
                },
                None => r == 0,
            },
    {
        match &self.envelope {
            Some(env) => {
                if env.tail_num > 0 && env.fps > 0 && (env.head_num as usize) < env.points.len() {
                    let x = env.points[env.head_num as usize].x as u64;
                    proof {
                        assert(x * (sample_rate as u64) <= u32::MAX * u32::MAX) by (nonlinear_arith)
                            requires
                                x <= u32::MAX,
                                sample_rate <= u32::MAX,
                        ;
                    }
                    x * sample_rate as u64 / env.fps as u64
                } else {
                    0
                }
            },
            None => 0,
        }
    }
}

#[derive(Debug)]
pub struct RPxToneWoicePCM {
    pub voice: RPxToneVoicePCM,
}

#[derive(Debug)]
pub struct RPxToneWoicePTV {
    pub voices: Vec<RPxToneVoicePTV>,
}

/// The shape of a procedural-noise oscillator, numbered as the format stores it.
#[derive(Debug, Clone, Copy, PartialEq, Eq, Structural)]
pub enum PTNWaveType {
    Off,
    Sine,
    Saw,
    Rect,
    Random,
    Saw2,
    Rect2,
    Tri,
    Random2,
    Rect3,
    Rect4,
    Rect8,
    Rect16,
    Saw3,
    Saw4,
    Saw6,
    Saw8,
}

/// The shape stored under `code`; unknown codes mean `Off` (no oscillator).
pub open spec fn shape_of_code(code: u8) -> PTNWaveType {
    match code {
        1 => PTNWaveType::Sine,
        2 => PTNWaveType::Saw,
        3 => PTNWaveType::Rect,
        4 => PTNWaveType::Random,
        5 => PTNWaveType::Saw2,
        6 => PTNWaveType::Rect2,
        7 => PTNWaveType::Tri,
        8 => PTNWaveType::Random2,
        9 => PTNWaveType::Rect3,
        10 => PTNWaveType::Rect4,
        11 => PTNWaveType::Rect8,
        12 => PTNWaveType::Rect16,
        13 => PTNWaveType::Saw3,
        14 => PTNWaveType::Saw4,
        15 => PTNWaveType::Saw6,
        16 => PTNWaveType::Saw8,
        _ => PTNWaveType::Off,
    }
}

impl PTNWaveType {
    pub fn from_u8(code: u8) -> (r: PTNWaveType)
        ensures
            r == shape_of_code(code),
    {
        match code {
            1 => PTNWaveType::Sine,
            2 => PTNWaveType::Saw,
            3 => PTNWaveType::Rect,
            4 => PTNWaveType::Random,
            5 => PTNWaveType::Saw2,
            6 => PTNWaveType::Rect2,
            7 => PTNWaveType::Tri,
            8 => PTNWaveType::Random2,
            9 => PTNWaveType::Rect3,
            10 => PTNWaveType::Rect4,
            11 => PTNWaveType::Rect8,
            12 => PTNWaveType::Rect16,
            13 => PTNWaveType::Saw3,
            14 => PTNWaveType::Saw4,
            15 => PTNWaveType::Saw6,
            16 => PTNWaveType::Saw8,
            _ => PTNWaveType::Off,
        }
    }
}

/// A procedural-noise instrument, kept as the bytes of its definition.
#[derive(Debug)]
pub struct RPxToneWoicePTN {
    pub data: Vec<u8>,
}

/// A voice decoded from Ogg Vorbis.
#[derive(Debug)]
pub struct RPxToneVoiceOGGV {
    pub basic_key: i32,
    pub volume: i32,
    pub pan: i32,
    pub tuning_bits: u32,
    pub flag_loop: bool,
    pub flag_smooth: bool,
    pub flag_beat_fit: bool,
    pub channels: u32,
    pub samples_per_second: u32,
    pub sample_num: u32,
    pub ogg_channels: u8,
    pub ogg_samples_per_second: u32,
    /// The first channel of the decoded stream.
    pub samples: Vec<i16>,
    pub ogg_data: Vec<u8>,
}

impl RPxToneVoiceOGGV {
    /// A voice of the bytes `data` whose stream decodes to `raw` (interleaved, `ogg_channels`
    /// channels at `ogg_samples_per_second`): it keeps the first channel.
    pub fn from_decoded(
        basic_key: i32,
        volume: i32,
        pan: i32,
        tuning_bits: u32,
        channels: u32,
        samples_per_second: u32,
        sample_num: u32,
        data: Vec<u8>,
        ogg_channels: u8,
        ogg_samples_per_second: u32,
        raw: &Vec<i16>,
        flag_loop: bool,
        flag_smooth: bool,
        flag_beat_fit: bool,
    ) -> (v: RPxToneVoiceOGGV)
        ensures
            v.ogg_channels == ogg_channels && v.ogg_samples_per_second == ogg_samples_per_second,
            v.samples@ == first_channel(ogg_channels, raw@),
            v.ogg_data@ == data@,
            v.basic_key == basic_key && v.volume == volume && v.pan == pan,
            v.tuning_bits == tuning_bits && v.channels == channels,
            v.samples_per_second == samples_per_second && v.sample_num == sample_num,
            v.flag_loop == flag_loop && v.flag_smooth == flag_smooth,
            v.flag_beat_fit == flag_beat_fit,
    {
        let samples = first_channel_of(ogg_channels, raw);
        RPxToneVoiceOGGV {
            basic_key,
            volume,
            pan,
            tuning_bits,
            flag_loop,
            flag_smooth,
            flag_beat_fit,
            channels,
            samples_per_second,
            sample_num,
            ogg_channels,
            ogg_samples_per_second,
            samples,
            ogg_data: data,
        }
    }

    /// A voice of the Ogg Vorbis bytes `data`, not yet decoded: no samples, and a zero
    /// channel count and rate for the stream until `from_decoded` gives them.
    pub fn new(
        basic_key: i32,
        volume: i32,
        pan: i32,
        tuning_bits: u32,
        channels: u32,
        samples_per_second: u32,
        sample_num: u32,
        data: Vec<u8>,
        flag_loop: bool,
        flag_smooth: bool,
        flag_beat_fit: bool,
    ) -> (v: RPxToneVoiceOGGV)
        ensures
            v.ogg_channels == 0 && v.ogg_samples_per_second == 0,
            v.samples@.len() == 0,
            v.ogg_data@ == data@,
            v.basic_key == basic_key && v.volume == volume && v.pan == pan,
            v.tuning_bits == tuning_bits && v.channels == channels,
            v.samples_per_second == samples_per_second && v.sample_num == sample_num,
            v.flag_loop == flag_loop && v.flag_smooth == flag_smooth,
            v.flag_beat_fit == flag_beat_fit,
    {
        RPxToneVoiceOGGV {
            basic_key,
            volume,
            pan,
            tuning_bits,
            flag_loop,
            flag_smooth,
            flag_beat_fit,
            channels,
            samples_per_second,
            sample_num,
            ogg_channels: 0,
            ogg_samples_per_second: 0,
            samples: Vec::new(),
            ogg_data: data,
        }
    }

    /// The frame read for frame position `pos`, as for PCM.
    pub fn frame_at(&self, pos: u64) -> (r: Option<usize>)
        ensures
            match frame_index(self.flag_loop, self.samples@.len(), pos as nat) {
                Some(i) => r == Some(i as usize),
                None => r is None,
            },
    {
        let n = self.samples.len();
        if n == 0 {
            None
        } else if self.flag_loop {
            Some((pos % n as u64) as usize)
        } else if pos < n as u64 {
            Some(pos as usize)
        } else {
            None
        }
    }
}

/// The first channel of interleaved `raw` with `channels` channels.
pub fn first_channel_of(channels: u8, raw: &Vec<i16>) -> (r: Vec<i16>)
    ensures
        r@ == first_channel(channels, raw@),
{
    if channels != 2 {
        return raw.clone();
    }
    let mut out: Vec<i16> = Vec::new();
    let mut i: usize = 0;
    let len = raw.len();
    let half = len / 2;
    while i < half
        invariant
            len == raw@.len(),
            half == len / 2,
            i <= half,
            out@ == Seq::new(i as nat, |k: int| raw@[2 * k]),
        decreases half - i,
    {
        assert(i + i + 1 < raw@.len()) by (nonlinear_arith)
            requires
                i < half,
                half == len / 2,
                len == raw@.len(),
        ;
        let at: usize = i + i;
        out.push(raw[at]);
        i = i + 1;
        assert(out@ =~= Seq::new(i as nat, |k: int| raw@[2 * k]));
    }
    assert(out@ =~= first_channel(channels, raw@));
    out
}

#[derive(Debug)]
pub struct RPxToneWoiceOGGV {
    pub voice: RPxToneVoiceOGGV,
}

#[derive(Debug)]
pub enum RPxToneWoiceType {
    PCM(RPxToneWoicePCM),
    PTV(RPxToneWoicePTV),
    PTN(RPxToneWoicePTN),
    OGGV(RPxToneWoiceOGGV),
}

/// A named instrument.
#[derive(Debug)]
pub struct RPxToneWoice {
    pub name: String,
    pub woice_type: RPxToneWoiceType,
}

} // verus!
